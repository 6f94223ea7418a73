use axiom_kernel::device::{RawDevice, RawDeviceRegistry, RegisterDeviceError};

#[derive(Debug, PartialEq)]
struct Dev {
    id: u64,
    name: &'static str,
}

impl RawDevice for Dev {
    fn id_of(&self) -> u64 {
        self.id
    }

    fn id(&self) -> u64 {
        self.id
    }
}

#[test]
fn devices_register_once_each() {
    let mut registry = RawDeviceRegistry::new();
    assert_eq!(registry.register_device(Dev { id: 7, name: "uart" }), Ok(()));
    assert_eq!(registry.register_device(Dev { id: 3, name: "gpio" }), Ok(()));
    assert_eq!(
        registry.register_device(Dev { id: 7, name: "other" }),
        Err(RegisterDeviceError::AlreadyRegistered)
    );
    let names: Vec<&str> = registry.all_devices().iter().map(|d| d.name).collect();
    assert_eq!(names, vec!["gpio", "uart"]);
}

#[test]
fn empty_registry_has_no_devices() {
    let registry: RawDeviceRegistry<Dev> = RawDeviceRegistry::default();
    assert!(registry.all_devices().is_empty());
}
