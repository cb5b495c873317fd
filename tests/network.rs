use rustml::{create_layer, create_network, Error};

#[test]
fn layer_has_its_shape_and_zeros() {
    let m = create_layer(3, 4, 0.0f64).unwrap();
    assert_eq!(m.shape(), (3, 4));
    assert_eq!(m.data.len(), 12);
    assert!(m.data.iter().all(|&x| x == 0.0));
}

#[test]
fn single_entry_layer() {
    let m = create_layer(1, 1, 0.0f64).unwrap();
    assert_eq!(m.shape(), (1, 1));
    assert_eq!(m.data, vec![0.0]);
}

#[test]
fn zero_dimension_is_an_allocation_error() {
    assert!(matches!(create_layer(0, 5, 0.0f64), Err(Error::Allocation)));
    assert!(matches!(create_layer(5, 0, 0.0f64), Err(Error::Allocation)));
}

#[test]
fn oversized_layer_is_an_allocation_error() {
    assert!(matches!(create_layer(usize::MAX, 2, 0u8), Err(Error::Allocation)));
}

#[test]
fn network_follows_the_topology() {
    let net = create_network(&vec![(784, 128), (128, 10)], 0.0f64).unwrap();
    assert_eq!(net.len(), 2);
    assert_eq!(net[0].shape(), (784, 128));
    assert_eq!(net[1].shape(), (128, 10));
    assert!(net.iter().all(|m| m.data.iter().all(|&x| x == 0.0)));
}

#[test]
fn network_with_a_zero_dimension_fails() {
    assert!(matches!(create_network(&vec![(2, 2), (0, 3)], 0.0f64), Err(Error::Allocation)));
}

#[test]
fn empty_topology_gives_empty_network() {
    assert!(create_network(&Vec::new(), 0.0f64).unwrap().is_empty());
}
