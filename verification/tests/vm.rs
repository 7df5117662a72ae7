use zinc::bytecode::builtins::BuiltinIdentifier;
use zinc::bytecode::instructions::CallBuiltin;
use zinc::bytecode::instructions::Ge;
use zinc::bytecode::instructions::PopCondition;
use zinc::number::BigInteger;
use zinc::vm::constrained_element::ConstrainedElement;
use zinc::vm::constrained_element::ConstrainedElementOperator;
use zinc::vm::constraint::Action;
use zinc::vm::constraint::LinearCombination;
use zinc::vm::constraint::Variable;
use zinc::vm::error::RuntimeError;
use zinc::vm::field::FieldElement;
use zinc::vm::instructions::VMInstruction;
use zinc::vm::machine::VirtualMachine;

fn limbs(element: &ConstrainedElement) -> [u64; 4] {
    element.value().unwrap().limbs()
}

fn constant(operator: &mut ConstrainedElementOperator, value: u64) -> ConstrainedElement {
    operator.constant_u64(value).unwrap()
}

/// The modulus of the field, less `n`.
fn modulus_less(n: u64) -> [u64; 4] {
    [
        0x43e1f593f0000001 - n,
        0x2833e84879b97091,
        0xb85045b68181585d,
        0x30644e72e131a029,
    ]
}

fn terms(combination: &LinearCombination) -> Vec<(bool, [u64; 4], Variable)> {
    combination
        .terms
        .iter()
        .map(|term| (term.negative, term.coefficient.limbs(), term.variable))
        .collect()
}

const ONE: [u64; 4] = [1, 0, 0, 0];

#[test]
fn test_constrained_element() {
    let mut operator = ConstrainedElementOperator::new();
    let a = operator.constant_u64(42).unwrap();
    let b = operator.constant_u64(7).unwrap();
    let _ = operator.add(a, b).unwrap();
}

#[test]
fn addition_builds_one_variable_and_one_constraint() {
    let mut operator = ConstrainedElementOperator::new();
    let a = constant(&mut operator, 42);
    let b = constant(&mut operator, 7);
    let sum = operator.add(a, b).unwrap();
    assert_eq!(limbs(&sum), [49, 0, 0, 0]);
    assert_eq!(a.variable, Variable::Allocated(0));
    assert_eq!(b.variable, Variable::Allocated(1));
    assert_eq!(sum.variable, Variable::Allocated(2));
    assert_eq!(operator.variables_count(), 3);
    let actions = operator.actions();
    assert_eq!(actions.len(), 6);
    match &actions[0] {
        Action::Allocate { namespace, annotation, value } => {
            assert_eq!(*namespace, 0);
            assert_eq!(*annotation, "constant value");
            assert_eq!(value.unwrap().limbs(), [42, 0, 0, 0]);
        }
        other => panic!("{:?}", other),
    }
    match &actions[1] {
        Action::Enforce { namespace, annotation, a, b, c } => {
            assert_eq!(*namespace, 0);
            assert_eq!(*annotation, "constant constraint");
            assert_eq!(terms(a), vec![(false, ONE, Variable::One)]);
            assert_eq!(terms(b), vec![(false, [42, 0, 0, 0], Variable::One)]);
            assert_eq!(terms(c), vec![(false, ONE, Variable::Allocated(0))]);
        }
        other => panic!("{:?}", other),
    }
    match &actions[4] {
        Action::Allocate { namespace, annotation, value } => {
            assert_eq!(*namespace, 2);
            assert_eq!(*annotation, "sum variable");
            assert_eq!(value.unwrap().limbs(), [49, 0, 0, 0]);
        }
        other => panic!("{:?}", other),
    }
    match &actions[5] {
        Action::Enforce { namespace, annotation, a, b, c } => {
            assert_eq!(*namespace, 2);
            assert_eq!(*annotation, "sum constraint");
            assert_eq!(
                terms(a),
                vec![(false, ONE, Variable::Allocated(0)), (false, ONE, Variable::Allocated(1))]
            );
            assert_eq!(terms(b), vec![(false, ONE, Variable::One)]);
            assert_eq!(terms(c), vec![(false, ONE, Variable::Allocated(2))]);
        }
        other => panic!("{:?}", other),
    }
}

#[test]
fn arithmetic_is_that_of_the_field() {
    let mut operator = ConstrainedElementOperator::new();
    let three = constant(&mut operator, 3);
    let five = constant(&mut operator, 5);
    assert_eq!(limbs(&operator.sub(five, three).unwrap()), [2, 0, 0, 0]);
    assert_eq!(limbs(&operator.sub(three, five).unwrap()), modulus_less(2));
    assert_eq!(limbs(&operator.mul(three, five).unwrap()), [15, 0, 0, 0]);
    assert_eq!(limbs(&operator.neg(three).unwrap()), modulus_less(3));
    let zero = constant(&mut operator, 0);
    assert_eq!(limbs(&operator.neg(zero).unwrap()), [0, 0, 0, 0]);
    let largest = operator.sub(zero, ConstrainedElementOperator::one()).unwrap();
    assert_eq!(limbs(&largest), modulus_less(1));
    assert_eq!(limbs(&operator.add(largest, five).unwrap()), [4, 0, 0, 0]);
    assert_eq!(limbs(&operator.mul(largest, largest).unwrap()), ONE);
    let big = constant(&mut operator, u64::MAX);
    assert_eq!(limbs(&operator.add(big, big).unwrap()), [u64::MAX - 1, 1, 0, 0]);
    assert_eq!(limbs(&operator.mul(big, big).unwrap()), [1, u64::MAX - 1, 0, 0]);
}

#[test]
fn division_gives_quotient_and_remainder() {
    let mut operator = ConstrainedElementOperator::new();
    let seventeen = constant(&mut operator, 17);
    let five = constant(&mut operator, 5);
    let before = operator.variables_count();
    let (quotient, remainder) = operator.div_rem(seventeen, five).unwrap();
    assert_eq!(limbs(&quotient), [3, 0, 0, 0]);
    assert_eq!(limbs(&remainder), [2, 0, 0, 0]);
    assert_eq!(quotient.variable, Variable::Allocated(before));
    assert_eq!(remainder.variable, Variable::Allocated(before + 1));
    assert_eq!(operator.variables_count(), before + 5);
    let actions = operator.actions();
    // The remainder is lesser than the divisor: the bit of the comparison is one.
    match &actions[actions.len() - 2] {
        Action::FitsBits { bits, value, operand, .. } => {
            assert_eq!(*bits, 253);
            assert_eq!(value.unwrap().limbs(), ONE);
            assert_eq!(*operand, Variable::Allocated(before + 3));
        }
        other => panic!("{:?}", other),
    }
    match &actions[actions.len() - 1] {
        Action::Enforce { annotation, a, b, c, .. } => {
            assert_eq!(*annotation, "range");
            assert_eq!(terms(a), vec![(false, ONE, Variable::Allocated(before + 4))]);
            assert_eq!(terms(b), vec![(false, ONE, Variable::One)]);
            assert_eq!(terms(c), vec![(false, ONE, Variable::One)]);
        }
        other => panic!("{:?}", other),
    }
    match &actions[4] {
        Action::Allocate { annotation, .. } => assert_eq!(*annotation, "quotient"),
        other => panic!("{:?}", other),
    }
    match &actions[6] {
        Action::Enforce { annotation, a, b, c, .. } => {
            assert_eq!(*annotation, "equality");
            assert_eq!(terms(a), vec![(false, ONE, Variable::Allocated(2))]);
            assert_eq!(terms(b), vec![(false, ONE, Variable::Allocated(1))]);
            assert_eq!(
                terms(c),
                vec![(false, ONE, Variable::Allocated(0)), (true, ONE, Variable::Allocated(3))]
            );
        }
        other => panic!("{:?}", other),
    }
}

#[test]
fn division_by_zero_cannot_be_satisfied() {
    let mut operator = ConstrainedElementOperator::new();
    let seventeen = constant(&mut operator, 17);
    let zero = constant(&mut operator, 0);
    let (quotient, remainder) = operator.div_rem(seventeen, zero).unwrap();
    assert_eq!(limbs(&quotient), [0, 0, 0, 0]);
    assert_eq!(limbs(&remainder), [17, 0, 0, 0]);
    let actions = operator.actions();
    match &actions[actions.len() - 2] {
        Action::FitsBits { value, .. } => assert_eq!(value.unwrap().limbs(), [0, 0, 0, 0]),
        other => panic!("{:?}", other),
    }
}

#[test]
fn division_of_large_numbers() {
    let mut operator = ConstrainedElementOperator::new();
    let big = constant(&mut operator, u64::MAX);
    let square = operator.mul(big, big).unwrap();
    let three = constant(&mut operator, 3);
    let (quotient, remainder) = operator.div_rem(square, three).unwrap();
    // (2^64 - 1)^2 = 3 * 113427455640312821142160373094783036075 + 0
    assert_eq!(limbs(&quotient), [0xaaaaaaaaaaaaaaab, 0x5555555555555554, 0, 0]);
    assert_eq!(limbs(&remainder), [0, 0, 0, 0]);
    let back = operator.mul(quotient, three).unwrap();
    let back = operator.add(back, remainder).unwrap();
    assert_eq!(limbs(&back), limbs(&square));
}

#[test]
fn logic_is_on_zero_and_not_zero() {
    let mut operator = ConstrainedElementOperator::new();
    let zero = constant(&mut operator, 0);
    let one = constant(&mut operator, 1);
    for (left, right, and, or, xor) in [
        (zero, zero, 0, 0, 0),
        (zero, one, 0, 1, 1),
        (one, zero, 0, 1, 1),
        (one, one, 1, 1, 0),
    ] {
        assert_eq!(limbs(&operator.and(left, right).unwrap()), [and, 0, 0, 0]);
        assert_eq!(limbs(&operator.or(left, right).unwrap()), [or, 0, 0, 0]);
        assert_eq!(limbs(&operator.xor(left, right).unwrap()), [xor, 0, 0, 0]);
    }
    assert_eq!(limbs(&operator.not(zero).unwrap()), ONE);
    assert_eq!(limbs(&operator.not(one).unwrap()), [0, 0, 0, 0]);
}

#[test]
fn comparisons() {
    let mut operator = ConstrainedElementOperator::new();
    let values = [0u64, 1, 2, 255, 4294967296, u64::MAX];
    for &l in values.iter() {
        for &r in values.iter() {
            let left = constant(&mut operator, l);
            let right = constant(&mut operator, r);
            let expect = |bit: bool| [bit as u64, 0, 0, 0];
            assert_eq!(limbs(&operator.eq(left, right).unwrap()), expect(l == r));
            assert_eq!(limbs(&operator.ne(left, right).unwrap()), expect(l != r));
            assert_eq!(limbs(&operator.le(left, right).unwrap()), expect(l <= r));
            assert_eq!(limbs(&operator.gt(left, right).unwrap()), expect(l > r));
            if r > 0 {
                assert_eq!(limbs(&operator.lt(left, right).unwrap()), expect(l < r));
                assert_eq!(limbs(&operator.ge(left, right).unwrap()), expect(l >= r));
            }
        }
    }
}

#[test]
fn equality_records_its_gadget() {
    let mut operator = ConstrainedElementOperator::new();
    let a = constant(&mut operator, 4);
    let b = constant(&mut operator, 4);
    let equal = operator.eq(a, b).unwrap();
    assert_eq!(equal.variable, Variable::Allocated(2));
    match &operator.actions()[4] {
        Action::Equals { namespace, left, right, value } => {
            assert_eq!(*namespace, 2);
            assert_eq!(*left, Variable::Allocated(0));
            assert_eq!(*right, Variable::Allocated(1));
            assert_eq!(value.unwrap().limbs(), ONE);
        }
        other => panic!("{:?}", other),
    }
}

#[test]
fn selection_follows_the_condition() {
    let mut operator = ConstrainedElementOperator::new();
    let zero = constant(&mut operator, 0);
    let one = constant(&mut operator, 1);
    let seven = constant(&mut operator, 7);
    let nine = constant(&mut operator, 9);
    assert_eq!(limbs(&operator.conditional_select(one, seven, nine).unwrap()), [7, 0, 0, 0]);
    assert_eq!(limbs(&operator.conditional_select(zero, seven, nine).unwrap()), [9, 0, 0, 0]);
    let unknown = ConstrainedElement { value: None, variable: Variable::Allocated(0) };
    assert!(operator.conditional_select(unknown, seven, nine).unwrap().value().is_none());
    assert!(operator.conditional_select(one, unknown, nine).unwrap().value().is_none());
    assert_eq!(limbs(&operator.conditional_select(zero, unknown, nine).unwrap()), [9, 0, 0, 0]);
}

#[test]
fn operations_without_a_witness_have_no_values() {
    let mut operator = ConstrainedElementOperator::new();
    let unknown = ConstrainedElement { value: None, variable: Variable::Allocated(0) };
    let one = ConstrainedElementOperator::one();
    assert!(operator.add(unknown, one).unwrap().value().is_none());
    assert!(operator.sub(one, unknown).unwrap().value().is_none());
    assert!(operator.mul(unknown, unknown).unwrap().value().is_none());
    assert!(operator.neg(unknown).unwrap().value().is_none());
    assert!(operator.and(unknown, one).unwrap().value().is_none());
    assert!(operator.or(one, unknown).unwrap().value().is_none());
    assert!(operator.xor(unknown, one).unwrap().value().is_none());
    assert!(operator.eq(unknown, one).unwrap().value().is_none());
    assert!(operator.le(unknown, one).unwrap().value().is_none());
    let (quotient, remainder) = operator.div_rem(unknown, one).unwrap();
    assert!(quotient.value().is_none() && remainder.value().is_none());
    assert_eq!(operator.variables_count(), 15);
}

#[test]
fn constants_of_big_integers() {
    let mut operator = ConstrainedElementOperator::new();
    let value = BigInteger::new(false, vec![1, 0, 0, 0, 0, 0, 0, 0, 5]);
    assert_eq!(limbs(&operator.constant_bigint(&value).unwrap()), [5, 1, 0, 0]);
    // The modulus itself is brought into the field as zero, and one more as one.
    let modulus: Vec<u8> = vec![
        0x30, 0x64, 0x4e, 0x72, 0xe1, 0x31, 0xa0, 0x29, 0xb8, 0x50, 0x45, 0xb6, 0x81, 0x81, 0x58,
        0x5d, 0x28, 0x33, 0xe8, 0x48, 0x79, 0xb9, 0x70, 0x91, 0x43, 0xe1, 0xf5, 0x93, 0xf0, 0x00,
        0x00, 0x01,
    ];
    assert_eq!(
        limbs(&operator.constant_bigint(&BigInteger::new(false, modulus.clone())).unwrap()),
        [0, 0, 0, 0]
    );
    let mut more = modulus;
    more[31] = 2;
    assert_eq!(limbs(&operator.constant_bigint(&BigInteger::new(false, more)).unwrap()), ONE);
    let count = operator.variables_count();
    assert_eq!(
        operator.constant_bigint(&BigInteger::new(true, vec![5])).err(),
        Some(RuntimeError::InternalError)
    );
    assert_eq!(operator.variables_count(), count);
    assert_eq!(limbs(&operator.constant_bigint(&BigInteger::new(true, vec![0])).unwrap()), [0; 4]);
    match &operator.actions()[1] {
        Action::Enforce { annotation, .. } => assert_eq!(*annotation, "constant equation"),
        other => panic!("{:?}", other),
    }
}

#[test]
fn field_elements() {
    assert_eq!(FieldElement::zero().limbs(), [0; 4]);
    assert_eq!(FieldElement::one().limbs(), ONE);
    assert!(FieldElement::zero().is_zero());
    assert!(!FieldElement::one().is_zero());
    assert_eq!(FieldElement::from_decimal("18446744073709551616").unwrap().limbs(), [0, 1, 0, 0]);
    assert_eq!(
        FieldElement::from_decimal(
            "21888242871839275222246405745257275088548364400416034343698204186575808495616"
        )
        .unwrap()
        .limbs(),
        modulus_less(1)
    );
    assert_eq!(
        FieldElement::from_decimal(
            "21888242871839275222246405745257275088548364400416034343698204186575808495619"
        )
        .unwrap()
        .limbs(),
        [2, 0, 0, 0]
    );
    assert!(FieldElement::from_decimal("").is_none());
    assert!(FieldElement::from_decimal("-1").is_none());
    assert!(FieldElement::from_decimal("01").is_none());
    assert!(FieldElement::from_decimal("1a").is_none());
    assert_eq!(FieldElement::from_decimal("0").unwrap().limbs(), [0; 4]);
    let a = FieldElement::from_decimal("100").unwrap();
    let b = FieldElement::from_decimal("7").unwrap();
    assert_eq!(a.add(&b).limbs(), [107, 0, 0, 0]);
    assert_eq!(a.sub(&b).limbs(), [93, 0, 0, 0]);
    assert_eq!(b.sub(&a).limbs(), modulus_less(93));
    assert_eq!(a.mul(&b).limbs(), [700, 0, 0, 0]);
    let (quotient, remainder) = a.div_rem(&b);
    assert_eq!((quotient.limbs(), remainder.limbs()), ([14, 0, 0, 0], [2, 0, 0, 0]));
    assert!(a.fits_comparison());
    assert!(!FieldElement::zero().sub(&b).fits_comparison());
}

fn machine() -> VirtualMachine {
    VirtualMachine::new(ConstrainedElementOperator::new())
}

fn push_constant(vm: &mut VirtualMachine, value: u64) {
    let element = vm.operator.constant_u64(value).unwrap();
    vm.push(element).unwrap();
}

fn stack_top_first(vm: &VirtualMachine) -> Vec<u64> {
    vm.stack.iter().rev().map(|element| limbs(element)[0]).collect()
}

#[test]
fn test_ge() {
    let mut vm = machine();
    push_constant(&mut vm, 1);
    push_constant(&mut vm, 2);
    Ge.execute(&mut vm).unwrap();
    push_constant(&mut vm, 2);
    push_constant(&mut vm, 2);
    Ge.execute(&mut vm).unwrap();
    push_constant(&mut vm, 2);
    push_constant(&mut vm, 1);
    Ge.execute(&mut vm).unwrap();
    assert_eq!(stack_top_first(&vm), vec![0, 1, 1]);
}

#[test]
fn ge_on_a_short_stack() {
    let mut vm = machine();
    assert_eq!(Ge.execute(&mut vm), Err(RuntimeError::StackUnderflow));
    push_constant(&mut vm, 1);
    assert_eq!(Ge.execute(&mut vm), Err(RuntimeError::StackUnderflow));
    assert!(vm.stack.is_empty());
}

#[test]
fn test_pop_condition() {
    let mut vm = machine();
    push_constant(&mut vm, 0);
    let condition = vm.pop().unwrap();
    vm.condition_push(condition).unwrap();
    PopCondition.execute(&mut vm).unwrap();
    assert_eq!(stack_top_first(&vm), Vec::<u64>::new());
    assert!(vm.conditions.is_empty());
}

#[test]
fn pop_condition_without_condition() {
    let mut vm = machine();
    push_constant(&mut vm, 1);
    assert_eq!(PopCondition.execute(&mut vm), Err(RuntimeError::StackUnderflow));
    assert_eq!(stack_top_first(&vm), vec![1]);
}

#[test]
fn test_cast() {
    let mut vm = machine();
    push_constant(&mut vm, 10);
    push_constant(&mut vm, 20);
    push_constant(&mut vm, 30);
    let call = CallBuiltin::new(BuiltinIdentifier::CryptoSha256, 2);
    let input = call.execute(&mut vm).unwrap();
    assert_eq!(input.iter().map(|element| limbs(element)[0]).collect::<Vec<u64>>(), vec![30, 20]);
    assert_eq!(stack_top_first(&vm), vec![10]);
    let values = vec![Some(FieldElement::one()), None, Some(FieldElement::zero())];
    call.complete(&mut vm, &input, &values).unwrap();
    assert_eq!(vm.stack.len(), 4);
    assert_eq!(vm.stack[1].variable, Variable::Allocated(3));
    assert_eq!(vm.stack[2].variable, Variable::Allocated(4));
    assert_eq!(vm.stack[3].variable, Variable::Allocated(5));
    assert_eq!(limbs(&vm.stack[1]), ONE);
    assert!(vm.stack[2].value().is_none());
    assert_eq!(limbs(&vm.stack[3]), [0; 4]);
    let actions = vm.operator.actions();
    match &actions[6] {
        Action::Builtin { namespace, identifier, inputs, outputs } => {
            assert_eq!(*namespace, 3);
            assert_eq!(*identifier, BuiltinIdentifier::CryptoSha256);
            assert_eq!(*inputs, vec![Variable::Allocated(2), Variable::Allocated(1)]);
            assert_eq!(*outputs, 3);
        }
        other => panic!("{:?}", other),
    }
    match &actions[9] {
        Action::Output { namespace, value } => {
            assert_eq!(*namespace, 3);
            assert_eq!(value.unwrap().limbs(), [0; 4]);
        }
        other => panic!("{:?}", other),
    }
    assert_eq!(actions.len(), 10);
}

#[test]
fn call_builtin_on_a_short_stack() {
    let mut vm = machine();
    push_constant(&mut vm, 10);
    let call = CallBuiltin::new(BuiltinIdentifier::CryptoPedersen, 2);
    assert_eq!(call.execute(&mut vm).err(), Some(RuntimeError::StackUnderflow));
    assert!(vm.stack.is_empty());
}
