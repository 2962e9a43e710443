use interchange::error::Error;
use interchange::stream::ReadState;
use interchange::value::Value;

#[test]
fn end_of_stream_repeats() {
    let mut s = ReadState::new();
    assert_eq!(s.next(Some(Ok(Value::I32(1)))).unwrap(), Some(Value::I32(1)));
    assert_eq!(s.next(None).unwrap(), None);
    assert!(s.is_finished());
    for _ in 0..5 {
        assert_eq!(s.next(None).unwrap(), None);
    }
    // Even a value that a stream yields after its end is not handed on.
    assert_eq!(s.next(Some(Ok(Value::Unit))).unwrap(), None);
    assert!(matches!(s.next(Some(Err(Error::Internal("late")))), Ok(None)));
}

#[test]
fn failure_is_not_end_of_stream() {
    let mut s = ReadState::new();
    let r = s.next(Some(Err(Error::Message("unexpected end of input".to_string()))));
    assert!(matches!(r, Err(Error::Message(_))));
    assert!(!s.is_finished());
}

#[test]
fn truncated_json_is_an_error_not_the_end() {
    let mut docs = serde_json::Deserializer::from_str("{").into_iter::<serde_json::Value>();
    let mut s = ReadState::new();
    let pulled = docs.next().map(|r| r.map(|_| Value::Unit).map_err(Error::Json));
    assert!(matches!(s.next(pulled), Err(Error::Json(_))));
    assert!(!s.is_finished());
}

#[test]
fn json_stream_of_two_documents_then_end() {
    let mut docs = serde_json::Deserializer::from_str("true\n1\n").into_iter::<serde_json::Value>();
    let mut s = ReadState::new();
    let mut seen = 0;
    loop {
        let pulled = if s.is_finished() {
            None
        } else {
            docs.next().map(|r| r.map(|_| Value::Unit).map_err(Error::Json))
        };
        match s.next(pulled) {
            Ok(Some(_)) => seen += 1,
            Ok(None) => break,
            Err(e) => panic!("unexpected {:?}", e),
        }
    }
    assert_eq!(seen, 2);
    assert_eq!(s.next(None).unwrap(), None);
}
