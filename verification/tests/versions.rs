use aura_pm::version::{Constraint, Recency, Relation, Version};

fn v(numbers: &[u64]) -> Version {
    Version::new(numbers.to_vec())
}

#[test]
fn equal_versions_are_the_same() {
    assert_eq!(v(&[1, 2, 3]).compare(&v(&[1, 2, 3])), Recency::Same);
    assert_eq!(v(&[]).compare(&v(&[])), Recency::Same);
    assert!(v(&[4, 0]).is_same_as(&v(&[4, 0])));
    assert!(!v(&[4, 0]).is_same_as(&v(&[4])));
}

#[test]
fn first_differing_number_decides() {
    assert_eq!(v(&[1, 2, 3]).compare(&v(&[1, 3, 0])), Recency::Older);
    assert_eq!(v(&[2, 0, 0]).compare(&v(&[1, 99, 99])), Recency::Newer);
    assert_eq!(v(&[1, 10]).compare(&v(&[1, 9])), Recency::Newer);
}

#[test]
fn a_prefix_is_older() {
    assert_eq!(v(&[1, 2]).compare(&v(&[1, 2, 0])), Recency::Older);
    assert_eq!(v(&[1, 2, 0]).compare(&v(&[1, 2])), Recency::Newer);
    assert_eq!(v(&[]).compare(&v(&[0])), Recency::Older);
}

#[test]
fn is_newer_than_is_strict() {
    assert!(v(&[1, 2, 4]).is_newer_than(&v(&[1, 2, 3])));
    assert!(!v(&[1, 2, 3]).is_newer_than(&v(&[1, 2, 3])));
    assert!(!v(&[1, 2, 3]).is_newer_than(&v(&[1, 2, 4])));
}

#[test]
fn comparison_is_antisymmetric_on_examples() {
    let list = [v(&[]), v(&[0]), v(&[1]), v(&[1, 0]), v(&[1, 1]), v(&[2]), v(&[u64::MAX])];
    for (i, a) in list.iter().enumerate() {
        for (j, b) in list.iter().enumerate() {
            let expected = if i < j {
                Recency::Older
            } else if i == j {
                Recency::Same
            } else {
                Recency::Newer
            };
            assert_eq!(a.compare(b), expected);
        }
    }
}

#[test]
fn clone_keeps_the_numbers() {
    let a = v(&[3, 1, 4]);
    assert_eq!(a.clone(), a);
}

fn constraint(relation: Relation, numbers: &[u64]) -> Constraint {
    Constraint { relation, version: v(numbers) }
}

#[test]
fn constraints_follow_their_relation() {
    let older = v(&[1, 0]);
    let same = v(&[1, 2]);
    let newer = v(&[1, 2, 1]);
    let cases = [
        (Relation::Less, [true, false, false]),
        (Relation::LessOrEqual, [true, true, false]),
        (Relation::Equal, [false, true, false]),
        (Relation::GreaterOrEqual, [false, true, true]),
        (Relation::Greater, [false, false, true]),
    ];
    for (relation, expected) in cases {
        let c = constraint(relation, &[1, 2]);
        assert_eq!(c.accepts(&older), expected[0]);
        assert_eq!(c.accepts(&same), expected[1]);
        assert_eq!(c.accepts(&newer), expected[2]);
    }
}
