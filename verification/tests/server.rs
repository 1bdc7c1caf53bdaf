use sanzu::broker::FidoDevice;
use sanzu::error::FidoError;
use sanzu::server::{report_descriptor, virtual_fido_phys, FidoServer, ServerAction, UhidEvent};

#[test]
fn builds_isolated_virtual_fido_paths() {
    assert_eq!(virtual_fido_phys(None).unwrap(), "sanzu/fido0");
    assert_eq!(
        virtual_fido_phys(Some("fred-1")).unwrap(),
        "sanzu/fido/fred-1"
    );
    assert!(virtual_fido_phys(Some("")).is_err());
    assert!(virtual_fido_phys(Some("../fred")).is_err());
    assert!(virtual_fido_phys(Some("fréd")).is_err());
    assert!(virtual_fido_phys(Some(&"a".repeat(65))).is_err());
}

#[test]
fn the_longest_identifier_is_accepted() {
    let id = "Az_9".repeat(16);
    assert_eq!(
        virtual_fido_phys(Some(&id)),
        Ok(format!("sanzu/fido/{id}"))
    );
    assert_eq!(
        virtual_fido_phys(Some("a b")),
        Err(FidoError::VirtualIdentifier)
    );
}

fn device(vendor_id: u32, product_id: u32, product_name: &str) -> FidoDevice {
    FidoDevice {
        vendor_id,
        product_id,
        product_name: product_name.to_owned(),
    }
}

#[test]
fn virtual_devices_are_set_up() {
    let (_, setup) = FidoServer::create(&device(0x1050, 0xffff, "YubiKey"), Some("x")).unwrap();
    assert_eq!(setup.name, "Sanzu forwarded YubiKey");
    assert_eq!(setup.phys, "sanzu/fido/x");
    assert_eq!((setup.vendor, setup.product), (0x1050, 0xffff));
    assert_eq!(setup.descriptor, report_descriptor());
    assert_eq!(setup.descriptor.len(), 34);
    let (_, setup) = FidoServer::create(&device(1, 1, &"n".repeat(99)), None).unwrap();
    assert_eq!(setup.name, format!("Sanzu forwarded {}", "n".repeat(80)));
    assert!(matches!(
        FidoServer::create(&device(0x10000, 1, ""), None),
        Err(FidoError::DeviceIdentifier)
    ));
    assert!(matches!(
        FidoServer::create(&device(1, 0x10000, ""), None),
        Err(FidoError::DeviceIdentifier)
    ));
    assert!(matches!(
        FidoServer::create(&device(1, 1, ""), Some("")),
        Err(FidoError::VirtualIdentifier)
    ));
}

fn server() -> FidoServer {
    FidoServer::create(&device(1, 2, "x"), None).unwrap().0
}

#[test]
fn virtual_outputs_are_collected() {
    let mut server = server();
    assert!(matches!(server.poll_reports(), Ok(ServerAction::Read)));
    let mut numbered = vec![7u8; 65];
    numbered[0] = 0;
    for data in [vec![1; 64], numbered.clone()] {
        assert!(matches!(
            server.handle(UhidEvent::Output(data)),
            Ok(ServerAction::Read)
        ));
    }
    for size in [63, 65] {
        assert!(matches!(
            server.handle(UhidEvent::Output(vec![1; size])),
            Ok(ServerAction::Ignored(ignored)) if ignored == size
        ));
        assert!(matches!(server.rejected(), Ok(ServerAction::Read)));
    }
    assert!(matches!(
        server.handle(UhidEvent::GetReport(5)),
        Ok(ServerAction::RejectGet(5))
    ));
    assert!(matches!(server.rejected(), Ok(ServerAction::Read)));
    assert!(matches!(
        server.handle(UhidEvent::SetReport(6)),
        Ok(ServerAction::RejectSet(6))
    ));
    assert!(matches!(
        server.handle(UhidEvent::Lifecycle),
        Ok(ServerAction::Read)
    ));
    let Ok(ServerAction::Done(reports)) = server.handle(UhidEvent::WouldBlock) else {
        panic!("the poll should be over");
    };
    assert_eq!(reports, [vec![1; 64], vec![7; 64]]);
}

#[test]
fn a_poll_reads_64_times() {
    let mut server = server();
    assert!(matches!(server.poll_reports(), Ok(ServerAction::Read)));
    for _ in 0..63 {
        assert!(matches!(
            server.handle(UhidEvent::Output(vec![0; 64])),
            Ok(ServerAction::Read)
        ));
    }
    let Ok(ServerAction::Done(reports)) = server.handle(UhidEvent::Output(vec![0; 64])) else {
        panic!("the poll should be over");
    };
    assert_eq!(reports.len(), 64);
    assert!(matches!(server.poll_reports(), Ok(ServerAction::Read)));
    assert!(matches!(
        server.handle(UhidEvent::Failed),
        Err(FidoError::Device)
    ));
    assert!(matches!(
        server.handle(UhidEvent::Unknown(99)),
        Err(FidoError::UnknownEvent(99))
    ));
}

#[test]
fn client_reports_are_written_up_to_the_first_invalid_one() {
    let server = server();
    let (writes, outcome) = server.write_reports(vec![vec![1; 64], vec![2; 64]]);
    assert_eq!((writes.len(), outcome), (2, Ok(())));
    let (writes, outcome) = server.write_reports(vec![vec![1; 64], vec![2; 63], vec![3; 64]]);
    assert_eq!(writes, [vec![1; 64]]);
    assert_eq!(outcome, Err(FidoError::ReportSize(63)));
    let (writes, outcome) = server.write_reports(vec![vec![1; 64]; 65]);
    assert!(writes.is_empty());
    assert_eq!(outcome, Err(FidoError::TooManyReports));
}
