use myth::values::{Tuple, Value};

fn tuple(values: Vec<Value>) -> Tuple {
    Tuple { items: values }
}

fn describe(t: &Tuple) -> Vec<String> {
    t.items.iter().map(|v| format!("{:?}", v)).collect()
}

#[test]
fn append() {
    let tup1 = tuple(vec![Value::Int(5), Value::Int(6), Value::Bool(false)]);
    let tup2 = tuple(vec![Value::Text("a".to_owned()), Value::Text("8.0".to_owned()), Value::Bool(true)]);
    let tup = tup1.append(tup2);
    let expected = tuple(vec![
        Value::Int(5),
        Value::Int(6),
        Value::Bool(false),
        Value::Text("a".to_owned()),
        Value::Text("8.0".to_owned()),
        Value::Bool(true),
    ]);
    assert_eq!(describe(&tup), describe(&expected));

    let tup1 = tuple(vec![Value::Int(7), Value::Int(8), Value::Text("a".to_string())]);
    let tup1_clone = describe(&tup1);
    let tup = tup1.append(Tuple::new());
    assert_eq!(describe(&tup), tup1_clone);

    let tup: Tuple = Tuple::new().append(Tuple::new());
    assert_eq!(tup.len(), 0);

    let tup1 = tuple(vec![Value::Text("e".to_owned())]);
    let tup = tup1.append(Tuple::new());
    assert_eq!(describe(&tup), vec![format!("{:?}", Value::Text("e".to_owned()))]);

    let tup2: Vec<Value> = [6, 6, 6, 6, 6, 6, 6, 6, 7].iter().map(|n| Value::Int(*n)).collect();
    let tup2_copy = describe(&tuple(tup2.iter().map(|v| v.duplicate()).collect()));
    let tup = Tuple::new().append(tuple(tup2));
    assert_eq!(describe(&tup), tup2_copy);

    let chars = |s: &str| -> Tuple { tuple(s.chars().map(|c| Value::Text(c.to_string())).collect()) };
    let tup = chars("abcdef").append(chars("ghij"));
    assert_eq!(describe(&tup), describe(&chars("abcdefghij")));
}

#[test]
fn split_undoes_append() {
    let a = tuple(vec![Value::Int(1), Value::Bool(true)]);
    let b = tuple(vec![Value::Text("x".to_owned()), Value::Int(2), Value::Int(3)]);
    let (da, db) = (describe(&a), describe(&b));
    let n = a.len();
    let (left, right) = Tuple::remove(a.append(b), n);
    assert_eq!(describe(&left), da);
    assert_eq!(describe(&right), db);
}

#[test]
fn push_pop_and_inner() {
    let t = Tuple::one(Value::Int(4));
    let t = t.append_one(Value::Int(5)).push_one(Value::Int(3));
    assert_eq!(describe(&t), describe(&tuple(vec![Value::Int(3), Value::Int(4), Value::Int(5)])));
    let (rest, first) = t.pop_one();
    assert!(matches!(first, Value::Int(3)));
    let (rest, last) = rest.remove_one();
    assert!(matches!(last, Value::Int(5)));
    assert!(matches!(rest.into_inner(), Value::Int(4)));
    let two = tuple(vec![Value::Int(1), Value::Int(2)]);
    assert!(matches!(two.into_inner(), Value::List(t) if t.len() == 2));
    assert!(matches!(Tuple::from_inner(Value::Bool(true)).into_inner(), Value::Bool(true)));
}
