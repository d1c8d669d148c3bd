use diceroller::aggregate::AggregatedSymbols;
use diceroller::dice::Die;
use diceroller::pool::{Pool, PoolRoll};
use diceroller::symbols::Symbol;

// Fixed draws used by the scenarios below, named after the face they hit.
fn ability_one_success() -> diceroller::dice::DieRoll {
    Die::Ability.roll_with_index(1)
}

fn ability_two_successes() -> diceroller::dice::DieRoll {
    Die::Ability.roll_with_index(2)
}

fn proficiency_triumph() -> diceroller::dice::DieRoll {
    Die::Proficiency.roll_with_index(3)
}

fn difficulty_one_threat() -> diceroller::dice::DieRoll {
    Die::Difficulty.roll_with_index(2)
}

fn difficulty_one_failure() -> diceroller::dice::DieRoll {
    Die::Difficulty.roll_with_index(6)
}

fn challange_despair() -> diceroller::dice::DieRoll {
    Die::Challange.roll_with_index(5)
}

fn boost_one_advantage() -> diceroller::dice::DieRoll {
    Die::Boost.roll_with_index(3)
}

fn force_one_light() -> diceroller::dice::DieRoll {
    Die::Force.roll_with_index(0)
}

fn force_one_dark() -> diceroller::dice::DieRoll {
    Die::Force.roll_with_index(2)
}

fn force_two_light() -> diceroller::dice::DieRoll {
    Die::Force.roll_with_index(8)
}

#[test]
fn aggregating_zero_rolls_is_blank() {
    let agg = Pool::empty().roll().aggregate();
    assert!(agg.is_blank());
    for s in [
        Symbol::Success,
        Symbol::Advantage,
        Symbol::Failure,
        Symbol::Threat,
        Symbol::Triumph,
        Symbol::Despair,
        Symbol::LightSide,
        Symbol::DarkSide,
    ] {
        assert_eq!(agg.count(s), 0);
    }
    assert_eq!(agg.format(), "<blank>");
}

#[test]
fn triumph_scores_itself_and_a_success() {
    let agg = proficiency_triumph().aggregate();
    assert_eq!(agg.count(Symbol::Triumph), 1);
    assert_eq!(agg.count(Symbol::Success), 1);
    assert_eq!(agg.count(Symbol::Failure), 0);
    assert_eq!(agg.count(Symbol::Advantage), 0);
}

#[test]
fn despair_scores_itself_and_a_failure() {
    let agg = challange_despair().aggregate();
    assert_eq!(agg.count(Symbol::Despair), 1);
    assert_eq!(agg.count(Symbol::Failure), 1);
    assert_eq!(agg.count(Symbol::Success), 0);
}

#[test]
fn three_successes_and_one_failure_cancel_to_two_successes() {
    let rolls = vec![
        ability_one_success(),
        ability_one_success(),
        ability_one_success(),
        difficulty_one_failure(),
    ];
    let agg = AggregatedSymbols::new(&rolls);
    assert_eq!(agg.count(Symbol::Success), 2);
    assert_eq!(agg.count(Symbol::Failure), 0);
}

#[test]
fn opposed_pairs_never_both_present() {
    let rolls = vec![
        ability_two_successes(),
        difficulty_one_failure(),
        boost_one_advantage(),
        difficulty_one_threat(),
        force_two_light(),
        force_one_dark(),
    ];
    let agg = AggregatedSymbols::new(&rolls);
    assert!(agg.count(Symbol::Success) == 0 || agg.count(Symbol::Failure) == 0);
    assert!(agg.count(Symbol::Advantage) == 0 || agg.count(Symbol::Threat) == 0);
    assert!(agg.count(Symbol::LightSide) == 0 || agg.count(Symbol::DarkSide) == 0);
}

#[test]
fn equal_opposed_counts_cancel_to_blank() {
    let rolls = vec![force_one_light(), force_one_dark()];
    let agg = AggregatedSymbols::new(&rolls);
    assert!(agg.is_blank());
    assert_eq!(agg.format(), "<blank>");
}

#[test]
fn ability_and_difficulty_scenario_formats_exactly() {
    let roll = PoolRoll::new(vec![ability_two_successes(), difficulty_one_threat()]);
    let agg = roll.aggregate();
    assert_eq!(agg.count(Symbol::Success), 2);
    assert_eq!(agg.count(Symbol::Threat), 1);
    assert_eq!(agg.format(), "2 Successes, 1 Threat");
}

#[test]
fn singular_and_plural_phrases() {
    let one = AggregatedSymbols::new(&vec![ability_one_success()]);
    assert_eq!(one.format(), "1 Success");

    let two = AggregatedSymbols::new(&vec![boost_one_advantage(), boost_one_advantage()]);
    assert_eq!(two.format(), "2 Advantages");
}

#[test]
fn triumph_roll_formats_in_priority_order() {
    let agg = proficiency_triumph().aggregate();
    assert_eq!(agg.format(), "1 Success, 1 Triumph");
}

#[test]
fn light_side_phrase_is_not_pluralized() {
    let rolls = vec![force_two_light(), force_one_light()];
    let agg = AggregatedSymbols::new(&rolls);
    assert_eq!(agg.count(Symbol::LightSide), 3);
    assert_eq!(agg.format(), "3 Light Side");
}

#[test]
fn two_digit_counts_render_fully() {
    let mut rolls = Vec::new();
    for _ in 0..12 {
        rolls.push(ability_one_success());
    }
    let agg = AggregatedSymbols::new(&rolls);
    assert_eq!(agg.count(Symbol::Success), 12);
    assert_eq!(agg.format(), "12 Successes");
}

#[test]
fn mixed_result_joins_phrases_in_priority_order() {
    let rolls = vec![
        ability_two_successes(),
        proficiency_triumph(),
        difficulty_one_threat(),
        difficulty_one_threat(),
    ];
    let agg = AggregatedSymbols::new(&rolls);
    assert_eq!(agg.count(Symbol::Success), 3);
    assert_eq!(agg.count(Symbol::Threat), 2);
    assert_eq!(agg.count(Symbol::Triumph), 1);
    assert_eq!(agg.format(), "3 Successes, 2 Threats, 1 Triumph");
}
