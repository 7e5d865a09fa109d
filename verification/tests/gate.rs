use ytdlp_queue::error::QueueError;
use ytdlp_queue::gate::AdmissionGate;

#[test]
fn gate_grants_up_to_capacity() {
    let mut g = AdmissionGate::new(2).unwrap();
    assert_eq!((g.capacity(), g.held(), g.available()), (2, 0, 2));
    assert!(g.try_acquire());
    assert!(g.try_acquire());
    assert!(!g.try_acquire());
    assert_eq!((g.held(), g.available()), (2, 0));
}

#[test]
fn gate_release_never_goes_below_zero() {
    let mut g = AdmissionGate::new(1).unwrap();
    assert!(!g.release());
    assert_eq!(g.held(), 0);
    assert!(g.try_acquire());
    assert!(g.release());
    assert!(!g.release());
    assert_eq!(g.held(), 0);
}

#[test]
fn gate_capacity_change_keeps_held_slots() {
    let mut g = AdmissionGate::new(3).unwrap();
    assert!(g.try_acquire());
    assert!(g.try_acquire());
    assert!(g.try_acquire());
    assert_eq!(g.set_capacity(1), Ok(()));
    assert_eq!((g.capacity(), g.held(), g.available()), (1, 3, 0));
    assert!(!g.try_acquire());
    assert_eq!(g.set_capacity(4), Ok(()));
    assert_eq!(g.available(), 1);
    assert!(g.try_acquire());
}

#[test]
fn gate_refuses_zero_capacity() {
    assert_eq!(AdmissionGate::new(0).err(), Some(QueueError::Config));
    let mut g = AdmissionGate::new(2).unwrap();
    assert_eq!(g.set_capacity(0), Err(QueueError::Config));
    assert_eq!(g.capacity(), 2);
}
