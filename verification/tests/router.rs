use meter_core::actor::messages::RegistryMsg;
use meter_core::actor::meter_actor::{MeterActor, MeterActorConfig, ProtocolStep};
use meter_core::protocol::codec::{decode_frame, encode_frame};
use meter_core::protocol::frame::Frame;
use meter_core::router::{Router, RouterConfig};
use meter_core::simulation::virtual_meter::{VirtualMeter, VirtualMeterConfig};

struct Bus {
    router: Router,
    meters: Vec<MeterActor>,
}

impl Bus {
    fn with(addresses: &[[u8; 6]]) -> Bus {
        let mut router = Router::new(RouterConfig::default());
        let mut meters = Vec::new();
        for address in addresses {
            let meter =
                VirtualMeter::new(VirtualMeterConfig { address: *address, ..Default::default() });
            let config = MeterActorConfig {
                address: *address,
                cmd_queue_capacity: 100,
                enable_persistence: false,
                has_store: false,
            };
            meters.push(MeterActor::new(meter, config));
            assert!(router.register(*address));
        }
        Bus { router, meters }
    }

    fn send(&mut self, raw: &[u8]) -> Vec<Vec<u8>> {
        let mut replies = Vec::new();
        if let Some((frame, targets)) = self.router.process_raw_frame(raw) {
            for i in targets {
                if let ProtocolStep::Reply { bytes, .. } =
                    self.meters[i].on_protocol_command(1, &frame)
                {
                    replies.push(bytes);
                }
            }
        }
        replies
    }
}

#[test]
fn test_router_creation() {
    let config = RouterConfig::default();
    let router = Router::new(config);

    assert_eq!(router.config(), config);
    assert_eq!(config, RouterConfig { worker_threads: 4, frame_queue_capacity: 1000 });
}

#[test]
fn test_router_with_registry() {
    let address = [0x01, 0x02, 0x03, 0x04, 0x05, 0x06];
    let mut router = Router::new(RouterConfig::default());
    assert!(router.register(address));

    assert_eq!(router.count(), 1);

    let addresses = router.addresses();
    assert_eq!(addresses.len(), 1);
    assert_eq!(addresses[0], address);
}

#[test]
fn test_end_to_end_read_voltage() {
    let address = [0x12, 0x34, 0x56, 0x78, 0x90, 0x12];
    let mut bus = Bus::with(&[address]);

    let di = [0x00, 0x01, 0x01, 0x02];
    let replies = bus.send(&encode_frame(&Frame::read(address, di)));
    let response_frame = decode_frame(&replies[0]).unwrap();

    assert_eq!(response_frame.control, 0x91);
    assert!(response_frame.data.len() >= 6);
    assert_eq!(&response_frame.data[0..4], &di);
}

#[test]
fn test_end_to_end_read_energy() {
    let address = [0x11, 0x22, 0x33, 0x44, 0x55, 0x66];
    let mut bus = Bus::with(&[address]);

    let di = [0x00, 0x00, 0x01, 0x00];
    let replies = bus.send(&encode_frame(&Frame::read(address, di)));
    let response_frame = decode_frame(&replies[0]).unwrap();

    assert_eq!(response_frame.control, 0x91);
    assert!(response_frame.data.len() >= 8);
    assert_eq!(&response_frame.data[0..4], &di);
}

#[test]
fn test_end_to_end_invalid_di() {
    let address = [0xAA, 0xBB, 0xCC, 0xDD, 0xEE, 0xFF];
    let mut bus = Bus::with(&[address]);

    let di = [0xFF, 0xFF, 0xFF, 0xFF];
    let replies = bus.send(&encode_frame(&Frame::read(address, di)));
    let response_frame = decode_frame(&replies[0]).unwrap();

    assert_eq!(response_frame.control, 0xD1);
    assert_eq!(response_frame.data.len(), 1);
    let error_code = response_frame.data[0];
    assert_eq!(error_code, 0x02);
}

#[test]
fn test_end_to_end_multiple_meters() {
    let address1 = [0x01, 0x00, 0x00, 0x00, 0x00, 0x00];
    let address2 = [0x02, 0x00, 0x00, 0x00, 0x00, 0x00];
    let mut bus = Bus::with(&[address1, address2]);

    let di = [0x00, 0x01, 0x01, 0x02];
    let mut responses = Vec::new();
    responses.extend(bus.send(&encode_frame(&Frame::read(address1, di))));
    responses.extend(bus.send(&encode_frame(&Frame::read(address2, di))));
    assert_eq!(responses.len(), 2);

    for response in &responses {
        let response_frame = decode_frame(response).unwrap();
        assert_eq!(response_frame.control, 0x91);
        assert!(response_frame.address == address1 || response_frame.address == address2);
    }
}

#[test]
fn wildcards_and_broadcasts_reach_several_meters() {
    let address1 = [0x01, 0x00, 0x00, 0x00, 0x00, 0x00];
    let address2 = [0x02, 0x00, 0x00, 0x00, 0x00, 0x00];
    let mut bus = Bus::with(&[address1, address2]);
    let reached = |bus: &Bus, frame: &Frame| {
        bus.router.process_raw_frame(&encode_frame(frame)).unwrap().1
    };

    let all = [0xAA; 6];
    let read = Frame { address: all, control: 0x13, data: vec![] };
    assert_eq!(reached(&bus, &read), vec![0, 1]);
    assert_eq!(bus.send(&encode_frame(&read)).len(), 2);

    let everyone = [0x99; 6];
    let freeze = Frame { address: everyone, control: 0x16, data: vec![0x99; 4] };
    assert_eq!(reached(&bus, &freeze), vec![0, 1]);
    let read = Frame::read(everyone, [0x00, 0x00, 0x01, 0x00]);
    assert!(reached(&bus, &read).is_empty());

    let other = Frame::read([9, 9, 9, 9, 9, 9], [0x00, 0x00, 0x01, 0x00]);
    assert!(reached(&bus, &other).is_empty());
    assert!(bus.router.process_raw_frame(&[0x68, 0x00]).is_none());
}

#[test]
fn meters_are_followed_to_new_addresses() {
    let (a, b) = ([1; 6], [2; 6]);
    let mut router = Router::new(RouterConfig::default());
    assert!(router.register(a));
    assert!(!router.register(a));
    assert!(router.register(b));
    assert!(!router.relocate(RegistryMsg::UpdateAddress { old: a, new: b }));
    assert!(!router.relocate(RegistryMsg::UpdateAddress { old: [7; 6], new: [8; 6] }));
    assert!(router.relocate(RegistryMsg::UpdateAddress { old: a, new: [3; 6] }));
    assert_eq!(router.addresses(), &vec![[3; 6], b]);
    assert_eq!(router.position(&b), Some(1));
    assert_eq!(router.position(&a), None);
}
