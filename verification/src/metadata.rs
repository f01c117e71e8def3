//! What the rules know of a connection.

use vstd::prelude::*;

use crate::addr::IpAddr;

verus! {

#[derive(Debug, Clone, Copy, PartialEq, Eq, Structural)]
pub enum Network {
    Tcp,
    Udp,
}

/// How a connection came in.
#[derive(Debug, Clone, Copy, PartialEq, Eq, Structural)]
pub enum ConnType {
    Http,
    Socks5,
    TProxy,
}

/// A connection as the rules see it.
#[derive(Debug)]
pub struct Metadata {
    pub network: Network,
    pub conn_type: ConnType,
    pub src_ip: Option<IpAddr>,
    pub src_port: u16,
    pub dst_ip: Option<IpAddr>,
    pub dst_port: u16,
    /// The destination's name, empty if it is not known.
    pub host: String,
    /// The name found in the first bytes that the client sent, or empty.
    pub sniff_host: String,
    /// The listener's name.
    pub in_name: String,
    /// The listener's port.
    pub in_port: u16,
}

/// What a [`Metadata`] says.
#[verifier::ext_equal]
pub struct Facts {
    pub network: Network,
    pub conn_type: ConnType,
    pub src_ip: Option<IpAddr>,
    pub src_port: u16,
    pub dst_ip: Option<IpAddr>,
    pub dst_port: u16,
    pub host: Seq<char>,
    pub sniff_host: Seq<char>,
    pub in_name: Seq<char>,
    pub in_port: u16,
}

impl View for Metadata {
    type V = Facts;

    open spec fn view(&self) -> Facts {
        Facts {
            network: self.network,
            conn_type: self.conn_type,
            src_ip: self.src_ip,
            src_port: self.src_port,
            dst_ip: self.dst_ip,
            dst_port: self.dst_port,
            host: self.host@,
            sniff_host: self.sniff_host@,
            in_name: self.in_name@,
            in_port: self.in_port,
        }
    }
}

impl Clone for Metadata {
    fn clone(&self) -> (copy: Self)
        ensures
            copy == *self,
    {
        Metadata {
            network: self.network,
            conn_type: self.conn_type,
            src_ip: self.src_ip,
            src_port: self.src_port,
            dst_ip: self.dst_ip,
            dst_port: self.dst_port,
            host: self.host.clone(),
            sniff_host: self.sniff_host.clone(),
            in_name: self.in_name.clone(),
            in_port: self.in_port,
        }
    }
}

/// What metadata says, it says field by field.
pub proof fn lemma_facts(metadata: Metadata)
    ensures
        metadata@.network == metadata.network,
        metadata@.conn_type == metadata.conn_type,
        metadata@.src_ip == metadata.src_ip,
        metadata@.src_port == metadata.src_port,
        metadata@.dst_ip == metadata.dst_ip,
        metadata@.dst_port == metadata.dst_port,
        metadata@.host == metadata.host@,
        metadata@.sniff_host == metadata.sniff_host@,
        metadata@.in_name == metadata.in_name@,
        metadata@.in_port == metadata.in_port,
{
}

} // verus!
