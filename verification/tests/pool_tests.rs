use diceroller::dice::Die;
use diceroller::pool::Pool;

#[test]
fn empty_pool_is_empty() {
    let p = Pool::empty();
    assert!(p.is_empty());
    assert_eq!(p.iter(), Vec::<Die>::new());
}

#[test]
fn add_makes_pool_non_empty() {
    let mut p = Pool::empty();
    p.add(Die::Ability);
    assert!(!p.is_empty());
    assert_eq!(p.iter(), vec![Die::Ability]);
}

#[test]
fn pool_keeps_dice_sorted_regardless_of_insertion_order() {
    let mut a = Pool::empty();
    a.add(Die::Force);
    a.add(Die::Ability);
    a.add(Die::Setback);
    a.add(Die::Ability);

    let mut b = Pool::empty();
    b.add(Die::Ability);
    b.add(Die::Setback);
    b.add(Die::Ability);
    b.add(Die::Force);

    let expected = vec![Die::Ability, Die::Ability, Die::Setback, Die::Force];
    assert_eq!(a.iter(), expected);
    assert_eq!(b.iter(), expected);
    assert_eq!(a, b);
}

#[test]
fn new_sorts_the_given_dice() {
    let p = Pool::new(vec![
        Die::Setback,
        Die::Challange,
        Die::Proficiency,
        Die::Boost,
        Die::Force,
        Die::Difficulty,
        Die::Ability,
    ]);
    assert_eq!(
        p.iter(),
        vec![
            Die::Ability,
            Die::Proficiency,
            Die::Difficulty,
            Die::Challange,
            Die::Boost,
            Die::Setback,
            Die::Force,
        ]
    );
}

#[test]
fn add_then_remove_restores_pool() {
    let mut p = Pool::new(vec![Die::Ability, Die::Difficulty]);
    let before = p.clone();
    p.add(Die::Boost);
    p.remove(Die::Boost);
    assert_eq!(p, before);
}

#[test]
fn add_then_remove_restores_pool_with_duplicates() {
    let mut p = Pool::new(vec![Die::Ability, Die::Ability, Die::Setback]);
    let before = p.clone();
    p.add(Die::Ability);
    p.remove(Die::Ability);
    assert_eq!(p, before);
}

#[test]
fn remove_takes_one_occurrence_only() {
    let mut p = Pool::new(vec![Die::Ability, Die::Ability]);
    p.remove(Die::Ability);
    assert_eq!(p.iter(), vec![Die::Ability]);
}

#[test]
fn remove_of_absent_die_is_a_no_op() {
    let mut p = Pool::new(vec![Die::Ability, Die::Difficulty]);
    let before = p.clone();
    p.remove(Die::Force);
    assert_eq!(p, before);
}

#[test]
fn clear_empties_the_pool() {
    let mut p = Pool::new(vec![Die::Ability, Die::Force]);
    p.clear();
    assert!(p.is_empty());
}

#[test]
fn pool_roll_has_one_roll_per_die_in_order() {
    let p = Pool::new(vec![Die::Ability, Die::Difficulty, Die::Boost]);
    let roll = p.roll();
    let dice: Vec<Die> = roll.dice_rolls.iter().map(|r| r.die).collect();
    assert_eq!(dice, p.iter());
}

#[test]
fn rolling_empty_pool_yields_empty_roll() {
    let p = Pool::empty();
    let roll = p.roll();
    assert!(roll.dice_rolls.is_empty());
}

#[test]
fn rolled_side_comes_from_the_dies_own_table() {
    for die in [
        Die::Ability,
        Die::Proficiency,
        Die::Difficulty,
        Die::Challange,
        Die::Boost,
        Die::Setback,
        Die::Force,
    ] {
        for _ in 0..50 {
            let r = die.roll();
            assert_eq!(r.die, die);
            assert!(die.sides().contains(&r.side));
        }
    }
}

#[test]
fn roll_with_index_picks_faces_modulo_table_length() {
    let sides = Die::Ability.sides();
    for i in 0..(2 * sides.len()) {
        let r = Die::Ability.roll_with_index(i);
        assert_eq!(r.die, Die::Ability);
        assert_eq!(r.side, sides[i % sides.len()]);
    }
}
