use fresh_air::field::{BaseElement, MODULUS};
use fresh_air::public::PublicInputs;
use winter_math::fields::f128::BaseElement as EngineElement;
use winter_math::StarkField;
use winter_utils::Serializable;

fn samples() -> Vec<u128> {
    vec![
        0,
        1,
        2,
        255,
        256,
        u64::MAX as u128,
        1u128 << 64,
        (1u128 << 100) + 12345,
        98765432109876543210987654321,
        MODULUS / 2,
        MODULUS - 2,
        MODULUS - 1,
    ]
}

#[test]
fn modulus_is_the_engine_modulus() {
    assert_eq!(MODULUS, EngineElement::MODULUS);
}

#[test]
fn addition_agrees_with_the_engine() {
    for a in samples() {
        for b in samples() {
            let ours = BaseElement::new(a).unwrap().add(BaseElement::new(b).unwrap()).as_int();
            let theirs = (EngineElement::new(a) + EngineElement::new(b)).as_int();
            assert_eq!(ours, theirs);
        }
    }
}

#[test]
fn subtraction_agrees_with_the_engine() {
    for a in samples() {
        for b in samples() {
            let ours = BaseElement::new(a).unwrap().sub(BaseElement::new(b).unwrap()).as_int();
            let theirs = (EngineElement::new(a) - EngineElement::new(b)).as_int();
            assert_eq!(ours, theirs);
        }
    }
}

#[test]
fn multiplication_agrees_with_the_engine() {
    for a in samples() {
        for b in samples() {
            let ours = BaseElement::new(a).unwrap().mul(BaseElement::new(b).unwrap()).as_int();
            let theirs = (EngineElement::new(a) * EngineElement::new(b)).as_int();
            assert_eq!(ours, theirs);
        }
    }
}

#[test]
fn conversion_agrees_with_the_engine() {
    for a in samples() {
        assert_eq!(BaseElement::new(a).unwrap().as_int(), EngineElement::new(a).as_int());
    }
    for a in [0u64, 7, u64::MAX] {
        assert_eq!(BaseElement::from_u64(a).as_int(), EngineElement::from(a).as_int());
    }
}

#[test]
fn element_bytes_agree_with_the_engine() {
    for a in samples() {
        let mut ours = Vec::new();
        BaseElement::new(a).unwrap().write_into(&mut ours);
        assert_eq!(ours, EngineElement::new(a).to_bytes());
    }
}

#[test]
fn public_inputs_serialize_like_the_engine() {
    let e = BaseElement::from_u64;
    let top = BaseElement::zero().sub(e(90));
    let inputs =
        PublicInputs { result: [[vec![e(1), top], vec![e(3)]], [vec![], vec![e(u64::MAX)]]] };
    let engine: Vec<[Vec<EngineElement>; 2]> = inputs
        .result
        .iter()
        .map(|level| {
            [
                level[0].iter().map(|x| EngineElement::new(x.as_int())).collect(),
                level[1].iter().map(|x| EngineElement::new(x.as_int())).collect(),
            ]
        })
        .collect();
    assert_eq!(inputs.to_bytes(), engine.to_bytes());
}
