use diceroller::codec::{decode, encode};
use diceroller::dice::Die;
use diceroller::pool::Pool;
use diceroller::symbols::{Side, Symbol};

#[test]
fn encode_uses_one_character_per_die_in_canonical_order() {
    let mut p = Pool::empty();
    p.add(Die::Force);
    p.add(Die::Ability);
    p.add(Die::Boost);
    assert_eq!(encode(&p), "ABF");
}

#[test]
fn encode_empty_pool_is_empty_string() {
    assert_eq!(encode(&Pool::empty()), "");
}

#[test]
fn encode_covers_every_die_kind() {
    let p = Pool::new(vec![
        Die::Ability,
        Die::Proficiency,
        Die::Difficulty,
        Die::Challange,
        Die::Boost,
        Die::Setback,
        Die::Force,
    ]);
    assert_eq!(encode(&p), "APDCBSF");
}

#[test]
fn decode_inverts_encode() {
    let p = Pool::new(vec![
        Die::Ability,
        Die::Ability,
        Die::Challange,
        Die::Setback,
        Die::Force,
    ]);
    assert_eq!(decode(&encode(&p)), p);
}

#[test]
fn decode_ignores_unsupported_characters() {
    let p = decode("A?bD F!");
    assert_eq!(p, Pool::new(vec![Die::Ability, Die::Difficulty, Die::Force]));
}

#[test]
fn decode_of_only_unsupported_characters_is_empty() {
    assert!(decode("xyz123").is_empty());
}

#[test]
fn decode_sorts_into_canonical_order() {
    let p = decode("FBA");
    assert_eq!(p.iter(), vec![Die::Ability, Die::Boost, Die::Force]);
}

use Side::{Blank, One, Two};
use Symbol::{Advantage, DarkSide, Despair, Failure, LightSide, Success, Threat, Triumph};

#[test]
fn face_tables_match_the_published_distributions() {
    assert_eq!(
        Die::Ability.sides(),
        vec![
            Blank,
            One(Success),
            Two(Success, Success),
            One(Advantage),
            Two(Advantage, Advantage),
            One(Success),
            Two(Advantage, Success),
            One(Advantage),
        ]
    );
    assert_eq!(Die::Proficiency.sides().len(), 12);
    assert_eq!(Die::Proficiency.sides()[3], One(Triumph));
    assert_eq!(
        Die::Difficulty.sides(),
        vec![
            Blank,
            Two(Failure, Failure),
            One(Threat),
            Two(Failure, Threat),
            Two(Threat, Threat),
            One(Threat),
            One(Failure),
            One(Threat),
        ]
    );
    assert_eq!(Die::Challange.sides().len(), 12);
    assert_eq!(Die::Challange.sides()[5], One(Despair));
    assert_eq!(
        Die::Boost.sides(),
        vec![
            Blank,
            Blank,
            One(Success),
            One(Advantage),
            Two(Success, Advantage),
            Two(Advantage, Advantage),
        ]
    );
    assert_eq!(
        Die::Setback.sides(),
        vec![
            Blank,
            Blank,
            One(Failure),
            One(Failure),
            One(Threat),
            One(Threat),
        ]
    );
    assert_eq!(Die::Force.sides().len(), 12);
    assert_eq!(Die::Force.sides()[0], One(LightSide));
    assert_eq!(Die::Force.sides()[11], Two(DarkSide, DarkSide));
}
