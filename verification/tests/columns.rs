use invar::data::{vmemory, vnetwork, vtools, vusb};

#[test]
fn overhead_is_absent_but_consumed_overhead_is_not() {
    let labels: Vec<String> = vmemory::columns().into_iter().map(|c| c.label).collect();
    assert!(!labels.iter().any(|l| l == "Overhead"));
    assert!(labels.iter().any(|l| l == "Consumed Overhead"));
}

#[test]
fn switch_is_not_claimed() {
    let labels: Vec<String> = vnetwork::columns().into_iter().map(|c| c.label).collect();
    assert!(!labels.iter().any(|l| l == "Switch"));
}

#[test]
fn required_version_is_not_claimed() {
    let labels: Vec<String> = vtools::columns().into_iter().map(|c| c.label).collect();
    assert!(!labels.iter().any(|l| l == "Required Version"));
}

#[test]
fn usb_controllers_are_not_rows() {
    assert!(!vusb::is_usb_device("VirtualUSBController"));
    assert!(!vusb::is_usb_device("VirtualUSBXHCIController"));
    assert!(vusb::is_usb_device("VirtualUSB"));
}

#[test]
fn unverified_usb_columns_are_not_claimed() {
    let labels: Vec<String> = vusb::columns().into_iter().map(|c| c.label).collect();
    for absent in ["Family", "Speed", "EHCI enabled", "Auto connect"] {
        assert!(!labels.iter().any(|l| l == absent), "{absent} is not verified");
    }
}
