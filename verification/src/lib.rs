//! Messaging between serial devices, zmq publishers and subscribers, and the
//! proxy between them: the packet format, subscription and publisher
//! accounting, monitor events, topics and message text.
pub mod communication;
pub mod frames;
pub mod monitor;
pub mod packet;
pub mod subscriptions;
pub mod text;
pub mod wire;
