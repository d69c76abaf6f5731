use async_event_streams::{event_sink_targets, take_params, AttrArgs, AttrModel, ParamError};

fn attr(path: &[&str], args: Option<&str>) -> AttrModel {
    AttrModel {
        leading_colon: false,
        path: path.iter().map(|s| s.to_string()).collect(),
        args: match args {
            Some(text) => AttrArgs::Group(text.to_string()),
            None => AttrArgs::Empty,
        },
    }
}

fn names(v: &[&str]) -> Vec<String> {
    v.iter().map(|s| s.to_string()).collect()
}

#[test]
fn single_event_is_taken() {
    let mut attrs = vec![attr(&["event_sink"], Some("event=FizzBuzz"))];
    assert_eq!(event_sink_targets(&mut attrs), Ok(names(&["FizzBuzz"])));
    assert!(attrs.is_empty());
}

#[test]
fn several_events_and_attributes_in_order() {
    let mut attrs = vec![
        attr(&["derive"], Some("Clone")),
        attr(&["event_sink"], Some(" event = A ,event=B ")),
        attr(&["doc"], None),
        attr(&["event_sink"], Some("event = C")),
    ];
    assert_eq!(event_sink_targets(&mut attrs), Ok(names(&["A", "B", "C"])));
    assert_eq!(attrs.len(), 2);
    assert_eq!(attrs[0].path, names(&["derive"]));
    assert_eq!(attrs[1].path, names(&["doc"]));
}

#[test]
fn attribute_without_arguments_asks_for_nothing() {
    let mut attrs = vec![attr(&["event_sink"], None)];
    assert_eq!(event_sink_targets(&mut attrs), Ok(vec![]));
    assert!(attrs.is_empty());
}

#[test]
fn no_attribute_gives_none() {
    let mut attrs = vec![attr(&["derive"], Some("Clone"))];
    assert_eq!(take_params("event_sink", &mut attrs), Ok(None));
    assert_eq!(attrs.len(), 1);
}

#[test]
fn qualified_paths_are_not_taken() {
    let mut attrs = vec![
        AttrModel { leading_colon: true, path: names(&["event_sink"]), args: AttrArgs::Group("event = A".to_string()) },
        attr(&["my", "event_sink"], Some("event = B")),
    ];
    assert_eq!(take_params("event_sink", &mut attrs), Ok(None));
    assert_eq!(attrs.len(), 2);
}

#[test]
fn event_without_name_is_refused() {
    let mut attrs = vec![attr(&["event_sink"], Some("event"))];
    assert_eq!(event_sink_targets(&mut attrs), Err(ParamError::EventNameExpected));
    assert!(attrs.is_empty());
}

#[test]
fn unknown_parameter_is_refused() {
    let mut attrs = vec![attr(&["event_sink"], Some("foo = X"))];
    assert_eq!(event_sink_targets(&mut attrs), Err(ParamError::UnexpectedParameter));
}

#[test]
fn unknown_parameter_is_reported_before_missing_name() {
    let mut attrs = vec![
        attr(&["event_sink"], Some("event")),
        attr(&["event_sink"], Some("event = A, other")),
    ];
    assert_eq!(event_sink_targets(&mut attrs), Err(ParamError::UnexpectedParameter));
}

#[test]
fn malformed_arguments_are_refused() {
    for args in ["", " ", "event = A,", "event = 5", "event = struct", "event == A", "event A", "_ = A", "event = A::B", "b\"x\"", "event = b'x'", "event = r#self", "event = r#_", "event = r# A"] {
        let mut attrs = vec![attr(&["event_sink"], Some(args))];
        assert_eq!(event_sink_targets(&mut attrs), Err(ParamError::Malformed), "{:?}", args);
    }
}

#[test]
fn keyword_like_identifiers_are_names() {
    let mut attrs = vec![attr(&["event_sink"], Some("event = union, event = Self_, event = _x"))];
    assert_eq!(event_sink_targets(&mut attrs), Ok(names(&["union", "Self_", "_x"])));
}

#[test]
fn other_attribute_names_can_be_taken() {
    let mut attrs = vec![attr(&["sink"], Some("event = X")), attr(&["event_sink"], Some("event = Y"))];
    assert_eq!(take_params("sink", &mut attrs), Ok(Some(names(&["X"]))));
    assert_eq!(attrs.len(), 1);
}

#[test]
fn name_value_attribute_is_refused() {
    let mut attrs = vec![AttrModel {
        leading_colon: false,
        path: names(&["event_sink"]),
        args: AttrArgs::Other,
    }];
    assert_eq!(event_sink_targets(&mut attrs), Err(ParamError::Malformed));
    assert!(attrs.is_empty());
}

#[test]
fn raw_and_unicode_identifiers_are_names() {
    let mut attrs = vec![attr(&["event_sink"], Some("event = r#type, event = Äpfel, event=r#Event"))];
    assert_eq!(event_sink_targets(&mut attrs), Ok(names(&["r#type", "Äpfel", "r#Event"])));
}

#[test]
fn raw_event_is_not_the_event_parameter() {
    let mut attrs = vec![attr(&["event_sink"], Some("r#event = A"))];
    assert_eq!(event_sink_targets(&mut attrs), Err(ParamError::UnexpectedParameter));
}
