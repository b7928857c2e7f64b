use headers_ext::{RawValue, ToValues, Values};

#[test]
fn raw_value_takes_field_content() {
    let value = RawValue::from_bytes(b"hello\xfa").expect("field content");
    assert_eq!(value.as_bytes(), b"hello\xfa");
    assert_eq!(value.len(), 6);
    assert!(RawValue::from_bytes(b"").is_some());
    assert!(RawValue::from_bytes(b"a\tb").is_some());
    assert!(RawValue::from_bytes(b" ~").is_some());
    assert!(RawValue::from_bytes(&[128, 255]).is_some());
}

#[test]
fn raw_value_refuses_control_bytes() {
    assert!(RawValue::from_bytes(b"\n").is_none());
    assert!(RawValue::from_bytes(b"a\r\nb").is_none());
    assert!(RawValue::from_bytes(&[0]).is_none());
    assert!(RawValue::from_bytes(&[31]).is_none());
    assert!(RawValue::from_bytes(&[b'a', 127]).is_none());
}

#[test]
fn raw_value_from_field_content_keeps_bytes() {
    let value = RawValue::from_field_content(b"Basic abc".to_vec());
    assert_eq!(value.as_bytes(), b"Basic abc");
}

#[test]
fn raw_value_clone_is_equal() {
    let value = RawValue::from_bytes(b"531").expect("field content");
    assert_eq!(value.clone(), value);
    assert_eq!(value.clone().as_bytes(), b"531");
}

#[test]
fn values_reads_in_order() {
    let items = vec![
        RawValue::from_bytes(b"one").expect("field content"),
        RawValue::from_bytes(b"two").expect("field content"),
    ];
    let mut values = Values::new(&items);
    assert!(!values.is_exhausted());
    assert_eq!(values.next().map(|v| v.as_bytes()), Some(&b"one"[..]));
    assert!(!values.is_exhausted());
    assert_eq!(values.next().map(|v| v.as_bytes()), Some(&b"two"[..]));
    assert!(values.is_exhausted());
    assert!(values.next().is_none());
    assert!(values.next().is_none());
    assert!(values.is_exhausted());
}

#[test]
fn values_over_nothing_is_exhausted() {
    let mut values = Values::new(&[]);
    assert!(values.is_exhausted());
    assert!(values.next().is_none());
}

#[test]
fn to_values_collects_in_order() {
    let mut to = ToValues::new();
    to.append(RawValue::from_bytes(b"one").expect("field content"));
    to.append(RawValue::from_bytes(b"two").expect("field content"));
    let items = to.into_vec();
    assert_eq!(items.len(), 2);
    assert_eq!(items[0].as_bytes(), b"one");
    assert_eq!(items[1].as_bytes(), b"two");
    assert!(ToValues::new().into_vec().is_empty());
}
