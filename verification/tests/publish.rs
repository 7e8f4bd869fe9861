use lastgasp::publish::{
    creation_is_fatal, fresh_stream_name, resolve_instance_id, stream_name, CreateStreamOutcome,
};

#[test]
fn test_resolve_instance_id_uses_fetched_value() {
    let id = resolve_instance_id(Some("i-0123456789abcdef0".to_string()));
    assert_eq!(id, "i-0123456789abcdef0");
}

#[test]
fn test_resolve_instance_id_falls_back_to_placeholder() {
    let id = resolve_instance_id(None);
    assert_eq!(id, "i-00000000000000000");
}

#[test]
fn test_stream_name_joins_with_dash() {
    let name = stream_name("i-0123456789abcdef0", "2023-01-02_03-04-05-000000006");
    assert_eq!(name, "i-0123456789abcdef0-2023-01-02_03-04-05-000000006");
}

#[test]
fn test_fresh_stream_name_shape() {
    let id = "i-0123456789abcdef0";
    let name = fresh_stream_name(id);
    // The identifier, then a dash, then a timestamp label of at least 29
    // characters drawn from digits and the format's separators.
    assert!(name.starts_with(id));
    let rest: Vec<char> = name.chars().skip(id.len()).collect();
    assert!(rest.len() >= 30);
    assert_eq!(rest[0], '-');
    for c in rest.iter().skip(1) {
        assert!(c.is_ascii_digit() || *c == '-' || *c == '_' || *c == '+');
    }
}

#[test]
fn test_fresh_stream_names_differ_between_runs() {
    // Two invocations one after the other read different instants, so the
    // labels differ in their sub-second digits virtually always; at minimum
    // both keep the required shape.
    let a = fresh_stream_name("i-0");
    let b = fresh_stream_name("i-0");
    assert!(a.len() >= 32);
    assert!(b.len() >= 32);
}

#[test]
fn test_creation_outcome_fatality() {
    assert!(!creation_is_fatal(&CreateStreamOutcome::Created));
    assert!(!creation_is_fatal(&CreateStreamOutcome::AlreadyExists));
    assert!(creation_is_fatal(&CreateStreamOutcome::Failed));
}
