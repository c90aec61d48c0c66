use anon_targets::error::AnonTargetsError;
use anon_targets::key::{AnonTargetKey, AttrValue};

fn attr(name: &str, value: AttrValue) -> (String, AttrValue) {
    (name.to_string(), value)
}

#[test]
fn reordered_attributes_give_the_same_key() {
    let a = vec![
        attr("name", AttrValue::Str("lib".to_string())),
        attr("srcs", AttrValue::StrList(vec!["a.c".to_string(), "b.c".to_string()])),
        attr("opt", AttrValue::Int(2)),
    ];
    let b = vec![
        attr("opt", AttrValue::Int(2)),
        attr("name", AttrValue::Str("lib".to_string())),
        attr("srcs", AttrValue::StrList(vec!["a.c".to_string(), "b.c".to_string()])),
    ];
    let ka = AnonTargetKey::compute(7, &a).unwrap();
    let kb = AnonTargetKey::compute(7, &b).unwrap();
    assert!(ka.same_target(&kb));
    assert!(kb.same_target(&ka));
    assert_eq!(ka.rule(), 7);
    assert_eq!(ka.attrs(), &a);
}

#[test]
fn list_order_matters() {
    let a = vec![attr("srcs", AttrValue::StrList(vec!["a".to_string(), "b".to_string()]))];
    let b = vec![attr("srcs", AttrValue::StrList(vec!["b".to_string(), "a".to_string()]))];
    let ka = AnonTargetKey::compute(1, &a).unwrap();
    let kb = AnonTargetKey::compute(1, &b).unwrap();
    assert!(!ka.same_target(&kb));
}

#[test]
fn different_rule_or_value_gives_another_key() {
    let a = vec![attr("x", AttrValue::Bool(true))];
    let b = vec![attr("x", AttrValue::Bool(false))];
    let c = vec![attr("x", AttrValue::Bool(true)), attr("y", AttrValue::Artifact(3))];
    let ka = AnonTargetKey::compute(1, &a).unwrap();
    assert!(!ka.same_target(&AnonTargetKey::compute(2, &a).unwrap()));
    assert!(!ka.same_target(&AnonTargetKey::compute(1, &b).unwrap()));
    assert!(!ka.same_target(&AnonTargetKey::compute(1, &c).unwrap()));
    assert!(!AnonTargetKey::compute(1, &c).unwrap().same_target(&ka));
}

#[test]
fn empty_attributes_are_valid() {
    let k1 = AnonTargetKey::compute(4, &vec![]).unwrap();
    let k2 = AnonTargetKey::compute(4, &vec![]).unwrap();
    assert!(k1.same_target(&k2));
}

#[test]
fn repeated_name_is_invalid() {
    let a = vec![
        attr("x", AttrValue::Int(1)),
        attr("y", AttrValue::Int(2)),
        attr("x", AttrValue::Int(1)),
    ];
    assert_eq!(
        AnonTargetKey::compute(1, &a).err(),
        Some(AnonTargetsError::InvalidAttribute("x".to_string()))
    );
}

#[test]
fn unresolved_promise_is_invalid() {
    let a = vec![
        attr("x", AttrValue::Int(1)),
        attr("dep", AttrValue::Promise(9)),
        attr("x", AttrValue::Int(1)),
    ];
    assert_eq!(
        AnonTargetKey::compute(1, &a).err(),
        Some(AnonTargetsError::InvalidAttribute("dep".to_string()))
    );
}
