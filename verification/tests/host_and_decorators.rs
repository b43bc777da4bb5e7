//! The advice map, the default host, and decorator iteration.

use miden_vm_lib::advice::AdviceMap;
use miden_vm_lib::decorators::{
    AssemblyOp, Decorator, DecoratorIterator, DecoratorList, SignatureKind,
};
use miden_vm_lib::felt::Felt;
use miden_vm_lib::host::DefaultHost;
use miden_vm_lib::word::Word;

fn word(a: u64) -> Word {
    Word::new(Felt::new(a), Felt::new(0), Felt::new(0), Felt::new(0))
}

#[test]
fn advice_map_insert_get_remove() {
    let mut map = AdviceMap::new();
    assert!(map.get(&word(1)).is_none());

    assert!(map.insert(word(1), vec![Felt::new(10)]).is_none());
    assert!(map.insert(word(2), vec![Felt::new(20)]).is_none());
    assert_eq!(map.get(&word(1)).unwrap()[0].as_int(), 10);

    // rebinding returns the previous values and keeps other keys
    let old = map.insert(word(1), vec![Felt::new(11), Felt::new(12)]).unwrap();
    assert_eq!(old[0].as_int(), 10);
    assert_eq!(map.get(&word(1)).unwrap().len(), 2);
    assert_eq!(map.get(&word(2)).unwrap()[0].as_int(), 20);

    let removed = map.remove(word(2)).unwrap();
    assert_eq!(removed[0].as_int(), 20);
    assert!(map.get(&word(2)).is_none());
    assert!(map.remove(word(2)).is_none());
}

#[test]
fn default_host_wraps_its_provider() {
    let mut host = DefaultHost::new(AdviceMap::new());
    host.advice_provider_mut().insert(word(7), vec![Felt::new(70)]);
    assert_eq!(host.advice_provider().get(&word(7)).unwrap()[0].as_int(), 70);
    let inner = host.into_inner();
    assert_eq!(inner.get(&word(7)).unwrap()[0].as_int(), 70);
}

#[test]
fn decorator_iterator_filters_by_position() {
    let list = DecoratorList {
        entries: vec![
            (0, Decorator::Event(1)),
            (2, Decorator::Trace(9)),
            (2, Decorator::AsmOp(AssemblyOp::new("add".to_string(), 1))),
        ],
    };
    let mut it = DecoratorIterator::new(&list);
    // position 0 matches the first decorator only
    assert!(matches!(it.next_filtered(0), Some(Decorator::Event(1))));
    assert!(it.next_filtered(1).is_none());
    // both decorators at position 2 come out in order
    assert!(matches!(it.next_filtered(2), Some(Decorator::Trace(9))));
    match it.next_filtered(2) {
        Some(Decorator::AsmOp(op)) => {
            assert_eq!(op.op(), "add");
            assert_eq!(op.num_cycles(), 1);
        },
        _ => panic!("expected the assembly decorator"),
    }
    assert!(it.next_filtered(2).is_none());
}

#[test]
fn decorator_iterator_plain_walk() {
    let list = DecoratorList { entries: vec![(0, Decorator::Event(1)), (5, Decorator::Trace(2))] };
    let mut it = DecoratorIterator::new(&list);
    assert!(matches!(it.next(), Some(Decorator::Event(1))));
    assert!(matches!(it.next(), Some(Decorator::Trace(2))));
    assert!(it.next().is_none());
}

#[test]
fn signature_kind_name() {
    assert_eq!(SignatureKind::RpoFalcon512.name(), "rpo_falcon512");
}
