use dstvec::{AnyTrait, DstVec, TraitImpl};

/// The interface of the stored integers: reading a byte image as a number.
trait Number {
    fn value(&self, bytes: &[u8]) -> u64;
    fn increment(&self, bytes: &mut [u8]);
}

struct LittleEndian;

impl Number for LittleEndian {
    fn value(&self, bytes: &[u8]) -> u64 {
        let mut value: u64 = 0;
        for (place, byte) in bytes.iter().enumerate() {
            value |= (*byte as u64) << (8 * place);
        }
        value
    }

    fn increment(&self, bytes: &mut [u8]) {
        for byte in bytes.iter_mut() {
            let (next, carry) = byte.overflowing_add(1);
            *byte = next;
            if !carry {
                break;
            }
        }
    }
}

// The contract-level items of the capability have no meaning at run time.
impl TraitImpl<dyn Number> for u8 {
    fn upcast_spec() -> Box<dyn Number> {
        unreachable!()
    }
    fn upcast() -> Box<dyn Number> {
        Box::new(LittleEndian)
    }
}

impl TraitImpl<dyn Number> for u16 {
    fn upcast_spec() -> Box<dyn Number> {
        unreachable!()
    }
    fn upcast() -> Box<dyn Number> {
        Box::new(LittleEndian)
    }
}

impl TraitImpl<dyn Number> for u32 {
    fn upcast_spec() -> Box<dyn Number> {
        unreachable!()
    }
    fn upcast() -> Box<dyn Number> {
        Box::new(LittleEndian)
    }
}

impl TraitImpl<dyn Number> for u64 {
    fn upcast_spec() -> Box<dyn Number> {
        unreachable!()
    }
    fn upcast() -> Box<dyn Number> {
        Box::new(LittleEndian)
    }
}

#[test]
fn integers_report_their_natural_alignment() {
    assert_eq!(7u8.align(), 1);
    assert_eq!(7u16.align(), 2);
    assert_eq!(7u32.align(), 4);
    assert_eq!(7u64.align(), 8);
}

#[test]
fn integers_hand_out_little_endian_images() {
    assert_eq!(0xabu8.raw_bytes(), vec![0xab]);
    assert_eq!(0x0102u16.raw_bytes(), vec![0x02, 0x01]);
    assert_eq!(0x01020304u32.raw_bytes(), vec![0x04, 0x03, 0x02, 0x01]);
    assert_eq!(
        0x0102030405060708u64.raw_bytes(),
        vec![0x08, 0x07, 0x06, 0x05, 0x04, 0x03, 0x02, 0x01]
    );
}

#[test]
fn each_integer_width_has_an_arena_of_its_own() {
    let mut numbers: DstVec<dyn Number> = DstVec::new();
    numbers.push(1u64);
    numbers.push(2u8);
    numbers.push(3u32);
    numbers.push(4u16);
    numbers.push(5u8);
    numbers.push(6u64);

    let placed: Vec<(usize, (usize, usize))> = (0..numbers.len())
        .map(|index| (numbers.buffer_id(index).unwrap(), numbers.buffer_range(index).unwrap()))
        .collect();
    assert_eq!(
        placed,
        vec![(3, (0, 8)), (0, (0, 1)), (2, (0, 4)), (1, (0, 2)), (0, (1, 2)), (3, (8, 16))]
    );
}

#[test]
fn integers_read_back_as_pushed() {
    let mut numbers: DstVec<dyn Number> = DstVec::new();
    numbers.push(0xfeu8);
    numbers.push(0xbeefu16);
    numbers.push(0xdeadbeefu32);
    numbers.push(0x0123456789abcdefu64);
    let values: Vec<u64> = (0..4)
        .map(|index| {
            let (bytes, number) = numbers.get(index).unwrap();
            number.value(bytes)
        })
        .collect();
    assert_eq!(values, vec![0xfe, 0xbeef, 0xdeadbeef, 0x0123456789abcdef]);
}

#[test]
fn incrementing_in_place_carries_within_the_element_only() {
    let mut numbers: DstVec<dyn Number> = DstVec::new();
    numbers.push(0x00ffu16);
    numbers.push(0xffffu16);
    numbers.push(0x0001u16);
    for index in 0..3 {
        let (bytes, number) = numbers.get_mut(index).unwrap();
        number.increment(bytes);
    }
    let values: Vec<u64> = (0..3)
        .map(|index| {
            let (bytes, number) = numbers.get(index).unwrap();
            number.value(bytes)
        })
        .collect();
    assert_eq!(values, vec![0x0100, 0x0000, 0x0002]);
    assert_eq!(numbers.buffer_range(2), Some((4, 6)));
}

#[test]
fn teardown_of_integers_hands_out_the_last_first() {
    let mut numbers: DstVec<dyn Number> = DstVec::new();
    numbers.push(10u32);
    numbers.push(20u8);
    numbers.push(30u32);
    let doomed = numbers.teardown_with(true);
    let values: Vec<u64> = doomed.iter().map(|(bytes, number)| number.value(bytes)).collect();
    assert_eq!(values, vec![30, 20, 10]);
    assert_eq!(numbers.len(), 0);
}

/// An interface that is a plain type without a destructor.
struct Plain;

impl TraitImpl<Plain> for u16 {
    fn upcast_spec() -> Box<Plain> {
        unreachable!()
    }
    fn upcast() -> Box<Plain> {
        Box::new(Plain)
    }
}

#[test]
fn teardown_by_type_skips_an_interface_without_destructor() {
    assert!(!std::mem::needs_drop::<Plain>());
    let mut numbers: DstVec<Plain> = DstVec::new();
    numbers.push(1u16);
    numbers.push(2u16);
    assert_eq!(numbers.len(), 2);
    assert_eq!(numbers.get(1).unwrap().0, &[2, 0]);
    let doomed = numbers.teardown();
    assert!(doomed.is_empty());
    assert_eq!(numbers.len(), 0);
    assert!(numbers.get(0).is_none());
}
