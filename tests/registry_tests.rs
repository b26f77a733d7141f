use ndi_source::connection::{disconnect, discovery_step, finish_connect, plan_connect, ConnectError, ConnectPlan, DiscoveryStep, DISCOVERY_WINDOW_MS};
use ndi_source::element::AudioSource;
use ndi_source::registry::{Registry, RegistryError, Release};

fn s(x: &str) -> String {
    x.to_string()
}

#[test]
fn repeated_acquire_shares_one_id() {
    let mut reg: Registry<u32> = Registry::new();
    assert_eq!(reg.acquire(&s("Cam1"), &s("")), None);
    let id = reg.insert(&s("Cam1"), &s(""), 7).unwrap();
    assert_eq!(id, 1);
    assert_eq!(reg.acquire(&s("Cam1"), &s("")), Some(1));
    assert_eq!(reg.acquire(&s("Cam1"), &s("")), Some(1));
    assert_eq!(reg.get(1).unwrap().ref_count, 3);
    assert_eq!(reg.acquire(&s("Cam1"), &s("10.0.0.1:5961")), None);
    assert_eq!(reg.insert(&s("Cam1"), &s(""), 8).err(), Some((RegistryError::Duplicate, 8)));
}

#[test]
fn released_id_is_not_found() {
    let mut reg: Registry<u32> = Registry::new();
    let id = reg.insert(&s("A"), &s("1.2.3.4"), 42).unwrap();
    assert!(matches!(reg.release(id), Release::Removed(42)));
    assert_eq!(reg.get(id).err(), Some(RegistryError::NotFound));
    assert_eq!(reg.get(0).err(), Some(RegistryError::NotFound));
    assert!(matches!(reg.release(id), Release::Unknown));
    assert_eq!(reg.len(), 0);
}

#[test]
fn two_elements_share_and_tear_down() {
    let mut reg: Registry<&str> = Registry::new();
    let mut first = AudioSource::new();
    let mut second = AudioSource::new();
    assert_eq!(first.settings.loss_threshold, 5);
    first.settings.stream_name = s("Cam1");
    second.settings.stream_name = s("Cam1");

    assert_eq!(plan_connect(&first.settings.ip), ConnectPlan::Discover);
    let sources = vec![s("Other"), s("Cam1")];
    assert_eq!(discovery_step(&sources, &first.settings.stream_name, 0, DISCOVERY_WINDOW_MS), DiscoveryStep::Found(1));
    let (id1, unused) = finish_connect(&mut reg, &first.settings.stream_name, &first.settings.ip, Some("conn"));
    assert_eq!(unused, None);
    assert_eq!(id1, 1);
    assert!(first.start(id1).is_ok());

    let (id2, unused) = finish_connect(&mut reg, &second.settings.stream_name, &second.settings.ip, None);
    assert_eq!(unused, None);
    assert_eq!(id2, 1);
    assert!(second.start(id2).is_ok());
    assert_eq!(reg.get(1).unwrap().ref_count, 2);

    assert_eq!(disconnect(&mut reg, first.stop()), None);
    assert_eq!(reg.get(1).unwrap().ref_count, 1);
    assert_eq!(disconnect(&mut reg, second.stop()), Some("conn"));
    assert_eq!(reg.get(1).err(), Some(RegistryError::NotFound));
    assert_eq!(disconnect(&mut reg, 1), None);
    assert_eq!(disconnect(&mut reg, 0), None);
}

#[test]
fn discovery_of_unknown_name_gives_up_after_window() {
    let sources = vec![s("Cam1"), s("cam1")];
    let name = s("NonexistentStream42");
    assert_eq!(discovery_step(&sources, &name, 0, DISCOVERY_WINDOW_MS), DiscoveryStep::Wait);
    assert_eq!(
        discovery_step(&sources, &name, DISCOVERY_WINDOW_MS, DISCOVERY_WINDOW_MS),
        DiscoveryStep::NotFound(ConnectError::ConnectionNotFound)
    );
    assert_eq!(discovery_step(&sources, &s("cam1"), 0, 10), DiscoveryStep::Found(1));
}

#[test]
fn address_given_connects_directly() {
    assert_eq!(plan_connect(&s("127.0.0.1:5961")), ConnectPlan::Direct);
    assert_eq!(plan_connect(&s("")), ConnectPlan::Discover);
}

#[test]
fn baseline_recorded_per_receiver() {
    let mut reg: Registry<u8> = Registry::new();
    let id = reg.insert(&s("V"), &s(""), 0).unwrap();
    assert_eq!(reg.record_initial_timestamp(id, 500), Ok(500));
    assert_eq!(reg.record_initial_timestamp(id, 900), Ok(500));
    assert_eq!(reg.record_initial_timestamp(id, 100), Ok(100));
    assert_eq!(reg.get(id).unwrap().initial_timestamp, 100);
    assert_eq!(reg.record_initial_timestamp(9, 1), Err(RegistryError::NotFound));
}

#[test]
fn failed_connection_gives_zero() {
    let mut reg: Registry<u8> = Registry::new();
    assert_eq!(finish_connect(&mut reg, &s("Cam2"), &s("127.0.0.1:5961"), None), (0, None));
    assert_eq!(reg.len(), 0);
    let mut src = AudioSource::new();
    assert!(src.start(0).is_err());
    assert_eq!(src.settings.receiver_id, 0);
}

#[test]
fn freed_ids_are_handed_out_again() {
    let mut reg: Registry<u8> = Registry::new();
    let a = reg.insert(&s("A"), &s(""), 1).unwrap();
    let b = reg.insert(&s("B"), &s(""), 2).unwrap();
    assert_eq!((a, b), (1, 2));
    assert!(matches!(reg.release(a), Release::Removed(1)));
    assert_eq!(reg.insert(&s("C"), &s(""), 3), Ok(1));
    assert_eq!(reg.insert(&s("D"), &s(""), 4), Ok(3));
    for k in 0..200u32 {
        let name = format!("S{}", k);
        let id = reg.insert(&name, &s(""), 0).unwrap();
        assert!(matches!(reg.release(id), Release::Removed(0)));
    }
    assert_eq!(reg.len(), 3);
}

#[test]
fn connection_made_for_a_live_stream_is_handed_back() {
    let mut reg: Registry<u8> = Registry::new();
    assert_eq!(finish_connect(&mut reg, &s("Cam1"), &s(""), Some(1)), (1, None));
    assert_eq!(finish_connect(&mut reg, &s("Cam1"), &s(""), Some(2)), (1, Some(2)));
    assert_eq!(reg.get(1).unwrap().ref_count, 2);
    assert_eq!(reg.get(1).unwrap().handle, 1);
}
