use kam::app::{App, CurrentScreen, CurrentlyEditing};
use kam::pairs::Pairs;

#[test]
fn a_new_app_is_empty_and_on_the_main_screen() {
    let app = App::new();
    assert_eq!(app.key_input, "");
    assert_eq!(app.value_input, "");
    assert_eq!(app.pairs.len(), 0);
    assert_eq!(app.current_screen, CurrentScreen::Main);
    assert_eq!(app.currently_editing, None);
}

#[test]
fn save_key_value_stores_the_pair_and_empties_the_inputs() {
    let mut app = App::new();
    app.key_input = "name".to_string();
    app.value_input = "kam".to_string();
    app.currently_editing = Some(CurrentlyEditing::Value);
    app.current_screen = CurrentScreen::Editing;
    app.save_key_value();
    assert_eq!(app.key_input, "");
    assert_eq!(app.value_input, "");
    assert_eq!(app.currently_editing, None);
    assert_eq!(app.current_screen, CurrentScreen::Editing);
    assert_eq!(app.pairs.len(), 1);
    assert_eq!(app.pairs.get(&"name".to_string()), Some(&"kam".to_string()));
}

#[test]
fn save_key_value_replaces_the_value_of_a_key_that_is_there() {
    let mut app = App::new();
    for (key, value) in [("a", "1"), ("b", "2"), ("a", "3")] {
        app.key_input = key.to_string();
        app.value_input = value.to_string();
        app.save_key_value();
    }
    assert_eq!(app.pairs.len(), 2);
    assert_eq!(app.pairs.key_at(0), "a");
    assert_eq!(app.pairs.value_at(0), "3");
    assert_eq!(app.pairs.key_at(1), "b");
    assert_eq!(app.pairs.value_at(1), "2");
}

#[test]
fn save_key_value_with_empty_inputs_stores_the_empty_pair() {
    let mut app = App::new();
    app.save_key_value();
    assert_eq!(app.pairs.len(), 1);
    assert_eq!(app.pairs.get(&String::new()), Some(&String::new()));
}

#[test]
fn toggle_editing_starts_with_the_key_and_then_alternates() {
    let mut app = App::new();
    app.toggle_editing();
    assert_eq!(app.currently_editing, Some(CurrentlyEditing::Key));
    app.toggle_editing();
    assert_eq!(app.currently_editing, Some(CurrentlyEditing::Value));
    app.toggle_editing();
    assert_eq!(app.currently_editing, Some(CurrentlyEditing::Key));
}

#[test]
fn toggle_editing_touches_nothing_else() {
    let mut app = App::new();
    app.key_input = "k".to_string();
    app.value_input = "v".to_string();
    app.current_screen = CurrentScreen::Exiting;
    app.toggle_editing();
    assert_eq!(app.key_input, "k");
    assert_eq!(app.value_input, "v");
    assert_eq!(app.pairs.len(), 0);
    assert_eq!(app.current_screen, CurrentScreen::Exiting);
}

#[test]
fn to_json_of_no_pairs_is_the_empty_object() {
    assert_eq!(App::new().to_json(), Ok("{}".to_string()));
}

#[test]
fn to_json_writes_each_key_with_its_value() {
    let mut app = App::new();
    app.key_input = "a".to_string();
    app.value_input = "1".to_string();
    app.save_key_value();
    assert_eq!(app.to_json(), Ok("{\"a\":\"1\"}".to_string()));
}

#[test]
fn to_json_escapes_what_json_asks_to_escape() {
    let mut pairs = Pairs::new();
    pairs.insert("say \"hi\"".to_string(), "line\nbreak\\".to_string());
    assert_eq!(pairs.to_json(), Ok("{\"say \\\"hi\\\"\":\"line\\nbreak\\\\\"}".to_string()));
}

#[test]
fn to_json_reads_back_as_the_same_pairs() {
    let mut pairs = Pairs::new();
    pairs.insert("zeta".to_string(), "last".to_string());
    pairs.insert("alpha".to_string(), "first".to_string());
    pairs.insert("zeta".to_string(), "again".to_string());
    let text = pairs.to_json().unwrap();
    let value: serde_json::Value = serde_json::from_str(&text).unwrap();
    let object = value.as_object().unwrap();
    assert_eq!(object.len(), 2);
    assert_eq!(object.get("zeta").and_then(|v| v.as_str()), Some("again"));
    assert_eq!(object.get("alpha").and_then(|v| v.as_str()), Some("first"));
}

#[test]
fn pairs_keep_the_order_in_which_keys_came() {
    let mut pairs = Pairs::new();
    pairs.insert("b".to_string(), "1".to_string());
    pairs.insert("a".to_string(), "2".to_string());
    pairs.insert("c".to_string(), "3".to_string());
    pairs.insert("a".to_string(), "4".to_string());
    assert_eq!(pairs.len(), 3);
    let keys: Vec<&str> = (0..pairs.len()).map(|i| pairs.key_at(i).as_str()).collect();
    let values: Vec<&str> = (0..pairs.len()).map(|i| pairs.value_at(i).as_str()).collect();
    assert_eq!(keys, vec!["b", "a", "c"]);
    assert_eq!(values, vec!["1", "4", "3"]);
}

#[test]
fn pairs_get_finds_what_was_inserted_and_nothing_else() {
    let mut pairs = Pairs::new();
    assert_eq!(pairs.get(&"a".to_string()), None);
    pairs.insert("a".to_string(), "1".to_string());
    assert_eq!(pairs.get(&"a".to_string()), Some(&"1".to_string()));
    assert_eq!(pairs.get(&"A".to_string()), None);
    assert_eq!(pairs.get(&String::new()), None);
}
