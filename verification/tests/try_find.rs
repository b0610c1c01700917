#![allow(unstable_name_collisions)]

use iter_try::TryFindExt;

fn testfn(x: &&isize) -> Result<bool, ()> {
    if **x == 2 {
        return Ok(true);
    }
    if **x == 4 {
        return Err(());
    }
    Ok(false)
}

#[test]
fn test_try_find() {
    let xs: &[isize] = &[];
    assert_eq!(xs.iter().try_find(testfn), Ok(None));
    let xs: &[isize] = &[1, 2, 3, 4];
    assert_eq!(xs.iter().try_find(testfn), Ok(Some(&2)));
    let xs: &[isize] = &[1, 3, 4];
    assert_eq!(xs.iter().try_find(testfn), Err(()));

    let xs: &[isize] = &[1, 2, 3, 4, 5, 6, 7];
    let mut iter = xs.iter();
    assert_eq!(iter.try_find(testfn), Ok(Some(&2)));
    assert_eq!(iter.try_find(testfn), Err(()));
    assert_eq!(iter.next(), Some(&5));
}

#[test]
fn empty_iterator_finds_nothing_and_asks_nothing() {
    let xs: Vec<u32> = Vec::new();
    let mut asked: usize = 0;
    let found: Result<Option<&u32>, String> = xs.iter().try_find(|_| {
        asked += 1;
        Ok(true)
    });
    assert_eq!(found, Ok(None));
    assert_eq!(asked, 0);

    let mut asked: usize = 0;
    let found: Result<Option<&u32>, String> = xs.iter().try_find(|_| {
        asked += 1;
        Err(String::from("never asked"))
    });
    assert_eq!(found, Ok(None));
    assert_eq!(asked, 0);
}

#[test]
fn no_stop_asks_each_item_once_in_order() {
    let xs = vec![7u32, 3, 9, 3, 1];
    let mut seen: Vec<u32> = Vec::new();
    let mut iter = xs.iter();
    let found: Result<Option<&u32>, ()> = iter.try_find(|x| {
        seen.push(**x);
        Ok(false)
    });
    assert_eq!(found, Ok(None));
    assert_eq!(seen, vec![7, 3, 9, 3, 1]);
    assert_eq!(iter.next(), None);
}

#[test]
fn first_match_ends_the_search() {
    let xs = vec![10u32, 20, 30, 20, 40];
    let mut seen: Vec<u32> = Vec::new();
    let mut iter = xs.iter();
    let found: Result<Option<&u32>, ()> = iter.try_find(|x| {
        seen.push(**x);
        Ok(**x >= 20)
    });
    assert_eq!(found, Ok(Some(&20)));
    assert_eq!(seen, vec![10, 20]);
    assert_eq!(iter.as_slice(), &[30, 20, 40]);
}

#[test]
fn first_failure_ends_the_search() {
    let xs = vec![10u32, 20, 30, 40];
    let mut seen: Vec<u32> = Vec::new();
    let mut iter = xs.iter();
    let found: Result<Option<&u32>, String> = iter.try_find(|x| {
        seen.push(**x);
        if **x == 30 {
            Err(format!("cannot judge {}", x))
        } else {
            Ok(false)
        }
    });
    assert_eq!(found, Err(String::from("cannot judge 30")));
    assert_eq!(seen, vec![10, 20, 30]);
    assert_eq!(iter.as_slice(), &[40]);
}

#[test]
fn failure_before_a_match_wins() {
    let xs = vec![1u8, 4, 2];
    let found: Result<Option<&u8>, u8> =
        xs.iter().try_find(|x| if **x == 4 { Err(**x) } else { Ok(**x == 2) });
    assert_eq!(found, Err(4));
}

#[test]
fn match_before_a_failure_wins() {
    let xs = vec![1u8, 2, 4];
    let found: Result<Option<&u8>, u8> =
        xs.iter().try_find(|x| if **x == 4 { Err(**x) } else { Ok(**x == 2) });
    assert_eq!(found, Ok(Some(&2)));
}

#[test]
fn failure_on_the_first_item_draws_only_that_item() {
    let xs = vec![4isize, 1, 2];
    let mut asked: usize = 0;
    let mut iter = xs.iter();
    let found = iter.try_find(|x| {
        asked += 1;
        testfn(x)
    });
    assert_eq!(found, Err(()));
    assert_eq!(asked, 1);
    assert_eq!(iter.next(), Some(&1));
}

#[test]
fn match_on_the_last_item_leaves_nothing() {
    let xs = vec![5isize, 6, 2];
    let mut iter = xs.iter();
    assert_eq!(iter.try_find(testfn), Ok(Some(&2)));
    assert_eq!(iter.next(), None);
    assert_eq!(iter.try_find(testfn), Ok(None));
}

#[test]
fn second_search_resumes_where_the_first_ended() {
    let xs = vec![1isize, 2, 3, 2, 5, 4, 2];
    let mut iter = xs.iter();
    assert_eq!(iter.try_find(testfn), Ok(Some(&xs[1])));
    assert_eq!(iter.as_slice(), &xs[2..]);

    let second = iter.try_find(testfn);
    assert_eq!(second, xs[2..].iter().try_find(testfn));
    assert_eq!(second, Ok(Some(&xs[3])));
    assert_eq!(iter.as_slice(), &xs[4..]);

    let third = iter.try_find(testfn);
    assert_eq!(third, xs[4..].iter().try_find(testfn));
    assert_eq!(third, Err(()));
    assert_eq!(iter.as_slice(), &xs[6..]);

    assert_eq!(iter.try_find(testfn), Ok(Some(&xs[6])));
    assert_eq!(iter.try_find(testfn), Ok(None));
    assert_eq!(iter.try_find(testfn), Ok(None));
}

#[test]
fn items_are_handed_over_by_value() {
    let names = vec![String::from("ash"), String::from("birch"), String::from("cedar")];
    let mut iter = names.into_iter();
    let found: Result<Option<String>, ()> = iter.try_find(|name| Ok(name.starts_with('b')));
    assert_eq!(found, Ok(Some(String::from("birch"))));
    assert_eq!(iter.next(), Some(String::from("cedar")));
}

#[test]
fn predicate_may_keep_state_between_items() {
    let xs = vec![3u32, 4, 5, 6];
    let mut sum: u32 = 0;
    let found: Result<Option<&u32>, ()> = xs.iter().try_find(|x| {
        sum += **x;
        Ok(sum > 10)
    });
    assert_eq!(found, Ok(Some(&5)));
    assert_eq!(sum, 12);
}

fn first_even(words: &[&str]) -> Result<Option<i32>, std::num::ParseIntError> {
    let found = words.iter().try_find(|word| Ok(word.parse::<i32>()? % 2 == 0))?;
    Ok(match found {
        Some(word) => Some(word.parse::<i32>()?),
        None => None,
    })
}

#[test]
fn result_goes_into_the_question_mark() {
    assert_eq!(first_even(&["1", "3", "8", "x"]), Ok(Some(8)));
    assert_eq!(first_even(&["1", "3", "5"]), Ok(None));
    assert_eq!(first_even(&[]), Ok(None));
    assert!(first_even(&["1", "x", "8"]).is_err());
}

#[test]
fn documented_example_holds() {
    let a = ["1", "2", "lol", "NaN", "5"];
    let is_my_num = |s: &str, search: i32| -> Result<bool, std::num::ParseIntError> {
        Ok(s.parse::<i32>()? == search)
    };

    let result = a.iter().try_find(|&&s| is_my_num(s, 2));
    assert_eq!(result, Ok(Some(&"2")));

    let result = a.iter().try_find(|&&s| is_my_num(s, 5));
    assert!(result.is_err());
}
