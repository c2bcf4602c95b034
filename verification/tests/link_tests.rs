use comms::communication::serial::SerialComm;
use comms::communication::zeromq::ZmqComm;
use std::sync::Arc;

#[test]
fn serial_link_keeps_port_and_rate() {
    let link = SerialComm::new("com4".to_string(), 9600);
    assert_eq!(link.port_name, "com4");
    assert_eq!(link.baud_rate, 9600);
}

#[test]
fn zmq_link_keeps_address_and_topic() {
    let context = Arc::new(zmq::Context::new());
    let link = ZmqComm::new(Arc::clone(&context), "tcp://localhost:5555".to_string(), "topic1".to_string());
    assert_eq!(link.address, "tcp://localhost:5555");
    assert_eq!(link.topic, "topic1");
    assert!(Arc::ptr_eq(&link.context, &context));
}
