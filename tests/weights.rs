use surface::weights::{ErasedHandle, VertexWeight, VertexWeightSet};

fn weight(value: f32, bone: u32) -> VertexWeight {
    VertexWeight { value: value.to_bits(), effector: ErasedHandle::new(bone, 1) }
}

#[test]
fn fifth_weight_is_dropped() {
    let mut set = VertexWeightSet::new();
    assert!(set.is_empty());
    for i in 0..4 {
        assert!(set.push(weight(0.25, i)));
    }
    assert!(!set.push(weight(0.5, 9)));
    assert_eq!(set.len(), 4);
    assert!(set.weights().iter().all(|w| w.effector.index != 9));
}

#[test]
fn weights_keep_push_order() {
    let mut set = VertexWeightSet::new();
    set.push(weight(0.3, 1));
    set.push(weight(0.4, 2));
    assert_eq!(set.weights(), &[weight(0.3, 1), weight(0.4, 2)]);
    set.set_value(1, 0.8f32.to_bits());
    assert_eq!(set.weights()[1], weight(0.8, 2));
    assert_eq!(set.len(), 2);
}

#[test]
fn none_handle() {
    assert!(ErasedHandle::none().is_none());
    assert!(!ErasedHandle::new(1, 0).is_none());
    let w = VertexWeight::default();
    assert_eq!(w.value, 0);
    assert!(w.effector.is_none());
}
