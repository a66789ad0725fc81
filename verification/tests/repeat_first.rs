use soft_body::repeat_first::IteratorRepeatFirst;
use soft_body::repeat_first::RepeatFirst;

#[test]
fn yields_the_first_item_again_at_the_end() {
    let mut walk = RepeatFirst::new(vec![3u32, 5, 8].into_iter());
    assert_eq!(walk.next(), Some(3));
    assert_eq!(walk.next(), Some(5));
    assert_eq!(walk.next(), Some(8));
    assert_eq!(walk.next(), Some(3));
    assert_eq!(walk.next(), None);
    assert_eq!(walk.next(), None);
}

#[test]
fn an_empty_source_yields_nothing() {
    let mut walk = Vec::<u32>::new().into_iter().repeat_first();
    assert_eq!(walk.next(), None);
    assert_eq!(walk.next(), None);
}

#[test]
fn collect_closes_the_path() {
    let items = vec!['a', 'b'].into_iter().repeat_first().collect();
    assert_eq!(items, vec!['a', 'b', 'a']);
}

#[test]
fn collect_of_an_empty_source_is_empty() {
    let items: Vec<u32> = Vec::new().into_iter().repeat_first().collect();
    assert_eq!(items, Vec::<u32>::new());
}

#[test]
fn one_item_comes_out_twice() {
    let items = vec![7u8].into_iter().repeat_first().collect();
    assert_eq!(items, vec![7, 7]);
}

#[test]
fn collect_after_a_start_still_closes_on_the_first_item() {
    let mut walk = vec![1u8, 2, 3].into_iter().repeat_first();
    assert_eq!(walk.next(), Some(1));
    assert_eq!(walk.collect(), vec![2, 3, 1]);
}

#[test]
fn collect_after_the_end_is_empty() {
    let mut walk = vec![1u8, 2].into_iter().repeat_first();
    assert_eq!(walk.next(), Some(1));
    assert_eq!(walk.next(), Some(2));
    assert_eq!(walk.next(), Some(1));
    assert_eq!(walk.collect(), Vec::<u8>::new());
}

#[test]
fn items_that_are_cloned_come_out_equal() {
    let names = vec![String::from("north"), String::from("east"), String::from("south")];
    let items = names.clone().into_iter().repeat_first().collect();
    assert_eq!(items, vec!["north", "east", "south", "north"]);
}

#[test]
fn works_over_any_iterator() {
    let items = (1..4).map(|x| x * 10).repeat_first().collect();
    assert_eq!(items, vec![10, 20, 30, 10]);
}
