use workshop::shoes::shows_in_size;
use workshop::shoes::Shoe;

#[test]
fn iterator_demonstration() {
    let v1 = vec![1, 2, 3];

    let mut v1_iter = v1.iter();

    assert_eq!(v1_iter.next(), Some(&1));
    assert_eq!(v1_iter.next(), Some(&2));
    assert_eq!(v1_iter.next(), Some(&3));
    assert_eq!(v1_iter.next(), None);
}

#[test]
fn iterator_sum() {
    let v1 = vec![1, 2, 3];

    let v1_iter = v1.iter();

    let total: i32 = v1_iter.sum();

    assert_eq!(total, 6);
}

#[test]
fn iterator_map() {
    let v1 = vec![1, 2, 3];

    let v2: Vec<i32> = v1.iter().map(|x| x + 1).collect();

    for index in 0..2 {
        let v1_val = v1.get(index).unwrap();
        let v2_val = v2.get(index).unwrap();
        assert_eq!(v1_val + 1, *v2_val);
    }
}

#[test]
fn filters_by_size() {
    let shoes = vec![
        Shoe {
            size: 10,
            style: String::from("sneaker"),
        },
        Shoe {
            size: 13,
            style: String::from("sandal"),
        },
        Shoe {
            size: 10,
            style: String::from("boot"),
        },
    ];

    let in_my_size = shows_in_size(shoes, 10);

    assert_eq!(in_my_size, vec![
        Shoe {
            size: 10,
            style: String::from("sneaker"),
        },
        Shoe {
            size: 10,
            style: String::from("boot"),
        },
    ]);
}

#[test]
fn filters_nothing_when_no_size_matches() {
    let shoes = vec![Shoe {
        size: 10,
        style: String::from("sneaker"),
    }];
    let in_my_size = shows_in_size(shoes, 11);
    assert_eq!(in_my_size, vec![]);
}
