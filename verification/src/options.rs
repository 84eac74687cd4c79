//! What a connection is set up with.

use crate::packet::{spec_message, Message, MessageView};
use vstd::prelude::*;

verus! {

/// The keep-alive interval of options that set none, in seconds.
pub const DEFAULT_KEEP_ALIVE: u16 = 60;

/// Connection options as plain values.
pub struct MqttOptionsView {
    pub client_id: Seq<char>,
    pub broker_addr: Seq<char>,
    pub port: u16,
    pub keep_alive: u16,
    pub manual_acks: bool,
    pub clean_start: bool,
    pub last_will: Option<MessageView>,
}

/// Options of a connection to a broker.
#[derive(Debug, Clone, PartialEq, Eq)]
pub struct MqttOptions {
    client_id: String,
    broker_addr: String,
    port: u16,
    keep_alive: u16,
    manual_acks: bool,
    clean_start: bool,
    last_will: Option<Message>,
}

impl View for MqttOptions {
    type V = MqttOptionsView;

    closed spec fn view(&self) -> MqttOptionsView {
        MqttOptionsView {
            client_id: self.client_id@,
            broker_addr: self.broker_addr@,
            port: self.port,
            keep_alive: self.keep_alive,
            manual_acks: self.manual_acks,
            clean_start: self.clean_start,
            last_will: spec_message(self.last_will),
        }
    }
}

impl MqttOptions {
    /// Options for the client `id` and the broker at `host` and `port`: a
    /// keep-alive interval of [`DEFAULT_KEEP_ALIVE`] seconds, a clean start,
    /// acknowledgments sent by the session itself, and no last will.
    pub fn new(id: String, host: String, port: u16) -> (options: MqttOptions)
        ensures
            options@ == (MqttOptionsView {
                client_id: id@,
                broker_addr: host@,
                port,
                keep_alive: DEFAULT_KEEP_ALIVE,
                manual_acks: false,
                clean_start: true,
                last_will: None,
            }),
    {
        MqttOptions {
            client_id: id,
            broker_addr: host,
            port,
            keep_alive: DEFAULT_KEEP_ALIVE,
            manual_acks: false,
            clean_start: true,
            last_will: None,
        }
    }

    /// Sets the keep-alive interval in seconds. An interval of 0 switches
    /// keep-alive off.
    pub fn set_keep_alive(&mut self, seconds: u16)
        ensures
            final(self)@ == (MqttOptionsView { keep_alive: seconds, ..old(self)@ }),
    {
        self.keep_alive = seconds;
    }

    /// Sets whether the application acknowledges incoming publishes itself.
    pub fn set_manual_acks(&mut self, manual_acks: bool)
        ensures
            final(self)@ == (MqttOptionsView { manual_acks, ..old(self)@ }),
    {
        self.manual_acks = manual_acks;
    }

    /// Sets whether a connection starts a new session, or resumes the one that
    /// the broker kept.
    pub fn set_clean_start(&mut self, clean_start: bool)
        ensures
            final(self)@ == (MqttOptionsView { clean_start, ..old(self)@ }),
    {
        self.clean_start = clean_start;
    }

    /// Sets the message that the broker publishes if the connection breaks.
    pub fn set_last_will(&mut self, will: Message)
        ensures
            final(self)@ == (MqttOptionsView { last_will: Some(will@), ..old(self)@ }),
    {
        self.last_will = Some(will);
    }

    pub fn client_id(&self) -> (id: String)
        ensures
            id@ == self@.client_id,
    {
        self.client_id.clone()
    }

    pub fn broker_address(&self) -> (address: (String, u16))
        ensures
            address.0@ == self@.broker_addr,
            address.1 == self@.port,
    {
        (self.broker_addr.clone(), self.port)
    }

    pub fn keep_alive(&self) -> (seconds: u16)
        ensures
            seconds == self@.keep_alive,
    {
        self.keep_alive
    }

    pub fn manual_acks(&self) -> (manual_acks: bool)
        ensures
            manual_acks == self@.manual_acks,
    {
        self.manual_acks
    }

    pub fn clean_start(&self) -> (clean_start: bool)
        ensures
            clean_start == self@.clean_start,
    {
        self.clean_start
    }

    pub fn last_will(&self) -> (will: Option<Message>)
        ensures
            spec_message(will) == self@.last_will,
    {
        match &self.last_will {
            Some(message) => Some(message.duplicate()),
            None => None,
        }
    }
}

} // verus!
