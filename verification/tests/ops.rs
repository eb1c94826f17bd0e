//! The container's operations on concrete values: every error variant, the
//! edge cases (empty container, last position, insertion at the length), and
//! one scenario for each of the container's stated laws.

use vec_ptr::VecPtr;
use vec_ptr::VecPtrError;

#[test]
fn get_after_pushes_returns_each_pushed_value() {
    let mut v: VecPtr<u32> = VecPtr::new();
    let pushed = [10u32, 20, 30, 40];
    for x in pushed {
        v.push(x);
    }
    assert_eq!(v.len(), 4);
    for (i, x) in pushed.iter().enumerate() {
        assert_eq!(v.get(i), Some(x));
    }
}

#[test]
fn push_then_get_last_round_trips() {
    let mut v: VecPtr<u32> = VecPtr::new();
    v.push(5);
    assert_eq!(v.get(v.len() - 1), Some(&5));
    v.push(77);
    assert_eq!(v.get(v.len() - 1), Some(&77));
}

#[test]
fn swap_exchanges_exactly_the_two_positions() {
    let mut v = VecPtr::from_vec(vec![1u32, 2, 3, 4]);
    let before_1 = *v.index(1);
    let before_3 = *v.index(3);
    assert_eq!(v.swap(1, 3), Ok(()));
    assert_eq!(v.get(1), Some(&before_3));
    assert_eq!(v.get(3), Some(&before_1));
    assert_eq!(v.get(0), Some(&1));
    assert_eq!(v.get(2), Some(&3));
    assert_eq!(v.len(), 4);
}

#[test]
fn swap_twice_restores_the_order() {
    let mut v = VecPtr::from_vec(vec![9u32, 8, 7]);
    assert_eq!(v.swap(0, 2), Ok(()));
    assert_eq!(v.swap(0, 2), Ok(()));
    assert_eq!(v.get(0), Some(&9));
    assert_eq!(v.get(1), Some(&8));
    assert_eq!(v.get(2), Some(&7));
}

#[test]
fn remove_shifts_later_positions_down() {
    let mut v = VecPtr::from_vec(vec![1u32, 2, 3, 4]);
    assert_eq!(v.remove(1), Ok(()));
    assert_eq!(v.len(), 3);
    assert_eq!(v.get(0), Some(&1));
    assert_eq!(v.get(1), Some(&3));
    assert_eq!(v.get(2), Some(&4));
}

#[test]
fn pop_returns_the_last_position_and_shrinks() {
    let mut v = VecPtr::from_vec(vec![1u32, 2, 3]);
    assert_eq!(v.pop(), Some(3));
    assert_eq!(v.len(), 2);
}

#[test]
fn pop_returns_the_most_recently_repositioned_value() {
    let mut v = VecPtr::from_vec(vec![1u32, 2, 3]);
    assert_eq!(v.swap(0, 2), Ok(()));
    assert_eq!(v.pop(), Some(1));
    assert_eq!(v.pop(), Some(2));
    assert_eq!(v.pop(), Some(3));
    assert_eq!(v.pop(), None);
}

#[test]
fn pop_on_empty_reports_empty() {
    let mut v: VecPtr<u32> = VecPtr::new();
    assert_eq!(v.pop(), None);
    assert!(v.is_empty());
}

#[test]
fn insert_at_length_appends() {
    let mut v = VecPtr::from_vec(vec![1u32, 2]);
    assert_eq!(v.insert(2, 3), Ok(()));
    assert_eq!(v.len(), 3);
    assert_eq!(v.get(2), Some(&3));
}

#[test]
fn insert_in_the_middle_shifts_later_positions_right() {
    let mut v = VecPtr::from_vec(vec![1u32, 3]);
    assert_eq!(v.insert(1, 2), Ok(()));
    assert_eq!(v.get(0), Some(&1));
    assert_eq!(v.get(1), Some(&2));
    assert_eq!(v.get(2), Some(&3));
}

#[test]
fn update_overwrites_only_its_position() {
    let mut v = VecPtr::from_vec(vec![1u32, 2, 3]);
    assert_eq!(v.update(1, 99), Ok(()));
    assert_eq!(v.get(0), Some(&1));
    assert_eq!(v.get(1), Some(&99));
    assert_eq!(v.get(2), Some(&3));
}

#[test]
fn update_follows_the_logical_position_after_a_swap() {
    let mut v = VecPtr::from_vec(vec![1u32, 2]);
    assert_eq!(v.swap(0, 1), Ok(()));
    assert_eq!(v.update(0, 50), Ok(()));
    assert_eq!(v.get(0), Some(&50));
    assert_eq!(v.get(1), Some(&1));
}

#[test]
fn get_mut_writes_through_to_the_position() {
    let mut v = VecPtr::from_vec(vec![1u32, 2]);
    if let Some(p) = v.get_mut(0) {
        *p = 200;
    } else {
        panic!("position 0 should resolve");
    }
    assert_eq!(v.get(0), Some(&200));
    assert_eq!(v.get(1), Some(&2));
    assert!(v.get_mut(2).is_none());
}

#[test]
fn out_of_range_operations_report_and_leave_state_unchanged() {
    let mut v = VecPtr::from_vec(vec![1u32, 2]);
    assert_eq!(v.get(2), None);
    assert_eq!(v.update(2, 9), Err(VecPtrError::IndexOutOfRange));
    assert_eq!(v.swap(0, 2), Err(VecPtrError::IndexOutOfRange));
    assert_eq!(v.swap(5, 0), Err(VecPtrError::IndexOutOfRange));
    assert_eq!(v.remove(2), Err(VecPtrError::IndexOutOfRange));
    assert_eq!(v.insert(3, 9), Err(VecPtrError::IndexOutOfRange));
    assert_eq!(v.len(), 2);
    assert_eq!(v.get(0), Some(&1));
    assert_eq!(v.get(1), Some(&2));
}

#[test]
fn iteration_walks_the_logical_order() {
    let mut v = VecPtr::from_vec(vec![1u32, 3]);
    assert_eq!(v.insert(1, 2), Ok(()));
    let mut it = v.iter();
    assert_eq!(it.next(), Some(&1));
    assert_eq!(it.next(), Some(&2));
    assert_eq!(it.next(), Some(&3));
    assert_eq!(it.next(), None);
}

#[test]
fn iteration_can_walk_in_reverse() {
    let v = VecPtr::from_vec(vec![1u32, 2, 3]);
    let mut it = v.iter();
    assert_eq!(it.next_back(), Some(&3));
    assert_eq!(it.next_back(), Some(&2));
    assert_eq!(it.next_back(), Some(&1));
    assert_eq!(it.next_back(), None);
    assert_eq!(it.next(), None);
}

#[test]
fn a_fresh_iteration_starts_over() {
    let v = VecPtr::from_vec(vec![4u32, 5]);
    let mut it = v.iter();
    assert_eq!(it.next(), Some(&4));
    let mut again = v.iter();
    assert_eq!(again.next(), Some(&4));
}

#[test]
fn owning_iteration_hands_the_values_out_in_order() {
    let mut v: VecPtr<String> = VecPtr::new();
    v.push(String::from("a"));
    v.push(String::from("b"));
    let mut it = v.into_iter();
    assert_eq!(it.next(), Some(String::from("a")));
    assert_eq!(it.next(), Some(String::from("b")));
    assert_eq!(it.next(), None);
}

#[test]
fn default_is_an_empty_container() {
    let v: VecPtr<u32> = VecPtr::default();
    assert!(v.is_empty());
    assert_eq!(v.len(), 0);
}

#[test]
fn swap_of_a_position_with_itself_changes_nothing() {
    let mut v = VecPtr::from_vec(vec![1u32, 2]);
    assert_eq!(v.swap(1, 1), Ok(()));
    assert_eq!(v.get(0), Some(&1));
    assert_eq!(v.get(1), Some(&2));
}

#[test]
fn remove_of_the_only_value_empties_the_container() {
    let mut v = VecPtr::from_vec(vec![42u32]);
    assert_eq!(v.remove(0), Ok(()));
    assert!(v.is_empty());
    assert_eq!(v.get(0), None);
}
