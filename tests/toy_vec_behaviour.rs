use toy_vec::ToyVec;

fn collect_all(v: &ToyVec<i32>) -> Vec<i32> {
    let mut out = Vec::new();
    let mut it = v.iter();
    while let Some(x) = it.next() {
        out.push(*x);
    }
    out
}

#[test]
fn scenario_push_three_from_zero_capacity() {
    let mut v: ToyVec<i32> = ToyVec::with_capacity(0);
    v.push(1);
    v.push(2);
    v.push(3);
    assert_eq!(v.len(), 3);
    assert!(v.capacity() >= 3);
    assert_eq!(v.capacity(), 4);
    assert_eq!(v.get(0), Some(&1));
    assert_eq!(v.get(3), None);
}

#[test]
fn scenario_pop_five_in_reverse() {
    let mut v: ToyVec<i32> = ToyVec::new();
    for i in 1..=5 {
        v.push(i);
    }
    assert_eq!(v.pop(), Some(5));
    assert_eq!(v.pop(), Some(4));
    assert_eq!(v.pop(), Some(3));
    assert_eq!(v.pop(), Some(2));
    assert_eq!(v.pop(), Some(1));
    assert_eq!(v.pop(), None);
    assert_eq!(v.len(), 0);
}

#[test]
fn scenario_get_or_out_of_range_gives_default() {
    let mut v: ToyVec<String> = ToyVec::new();
    v.push("a".to_string());
    v.push("b".to_string());
    v.push("c".to_string());
    let default_value = "fallback".to_string();
    let r = v.get_or(10, &default_value);
    assert!(std::ptr::eq(r, &default_value));
    assert_eq!(r, "fallback");
    assert_eq!(v.get_or(1, &default_value), "b");
}

#[test]
fn scenario_fifth_push_doubles_capacity() {
    let mut v: ToyVec<i32> = ToyVec::with_capacity(4);
    assert_eq!(v.capacity(), 4);
    for i in 10..14 {
        v.push(i);
        assert_eq!(v.capacity(), 4);
    }
    v.push(14);
    assert_eq!(v.capacity(), 8);
    assert_eq!(v.len(), 5);
    for i in 0..5 {
        assert_eq!(v.get(i), Some(&(10 + i as i32)));
    }
    assert_eq!(collect_all(&v), vec![10, 11, 12, 13, 14]);
}

#[test]
fn growth_capacity_is_power_of_two_after_each_push() {
    let mut v: ToyVec<u64> = ToyVec::with_capacity(0);
    assert_eq!(v.capacity(), 0);
    for i in 0..100u64 {
        v.push(i);
        let c = v.capacity();
        assert!(v.len() <= c);
        assert!(c.is_power_of_two());
    }
    assert_eq!(v.capacity(), 128);
}

#[test]
fn growth_from_zero_goes_one_two_four() {
    let mut v: ToyVec<u8> = ToyVec::new();
    v.push(1);
    assert_eq!(v.capacity(), 1);
    v.push(2);
    assert_eq!(v.capacity(), 2);
    v.push(3);
    assert_eq!(v.capacity(), 4);
    v.push(4);
    assert_eq!(v.capacity(), 4);
}

#[test]
fn push_then_pop_round_trip() {
    let mut v: ToyVec<String> = ToyVec::with_capacity(2);
    v.push("x".to_string());
    let before = v.len();
    v.push("hello".to_string());
    assert_eq!(v.pop(), Some("hello".to_string()));
    assert_eq!(v.len(), before);
    assert_eq!(v.get(0), Some(&"x".to_string()));
}

#[test]
fn pop_on_empty_changes_nothing() {
    let mut v: ToyVec<i32> = ToyVec::with_capacity(3);
    assert_eq!(v.pop(), None);
    assert_eq!(v.len(), 0);
    assert_eq!(v.capacity(), 3);
    let mut w: ToyVec<i32> = ToyVec::new();
    assert_eq!(w.pop(), None);
    assert_eq!(w.len(), 0);
    assert_eq!(w.capacity(), 0);
}

#[test]
fn pop_keeps_capacity_and_slot_is_reused() {
    let mut v: ToyVec<i32> = ToyVec::new();
    v.push(7);
    v.push(8);
    assert_eq!(v.pop(), Some(8));
    assert_eq!(v.capacity(), 2);
    assert_eq!(v.get(1), None);
    v.push(9);
    assert_eq!(v.capacity(), 2);
    assert_eq!(v.get(1), Some(&9));
}

#[test]
fn get_is_some_exactly_below_length() {
    let mut v: ToyVec<i32> = ToyVec::with_capacity(8);
    v.push(5);
    v.push(6);
    for i in 0..10 {
        assert_eq!(v.get(i).is_some(), i < v.len());
    }
    assert_eq!(v.get(usize::MAX), None);
    let empty: ToyVec<i32> = ToyVec::with_capacity(4);
    assert_eq!(empty.get(0), None);
}

#[test]
fn iteration_keeps_push_order() {
    let mut v: ToyVec<i32> = ToyVec::new();
    let values = [3, -1, 4, 1, -5, 9, 2, 6];
    for x in values {
        v.push(x);
    }
    assert_eq!(collect_all(&v), values.to_vec());
    for (i, x) in values.iter().enumerate() {
        assert_eq!(v.get(i), Some(x));
    }
}

#[test]
fn iteration_after_pop_skips_removed() {
    let mut v: ToyVec<i32> = ToyVec::new();
    v.push(1);
    v.push(2);
    v.push(3);
    v.pop();
    assert_eq!(collect_all(&v), vec![1, 2]);
}

#[test]
fn exhausted_view_keeps_returning_none() {
    let mut v: ToyVec<i32> = ToyVec::with_capacity(4);
    v.push(42);
    let mut it = v.iter();
    assert_eq!(it.next(), Some(&42));
    assert_eq!(it.next(), None);
    assert_eq!(it.next(), None);
    let empty: ToyVec<i32> = ToyVec::new();
    let mut it2 = empty.iter();
    assert_eq!(it2.next(), None);
}

#[test]
fn fresh_container_is_empty() {
    let v: ToyVec<i32> = ToyVec::with_capacity(5);
    assert_eq!(v.len(), 0);
    assert_eq!(v.capacity(), 5);
    let w: ToyVec<i32> = ToyVec::new();
    assert_eq!(w.len(), 0);
    assert_eq!(w.capacity(), 0);
}
