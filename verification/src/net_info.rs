use vstd::prelude::*;
use vstd::string::StringSliceAdditionalSpecFns;

verus! {

use crate::cpu_info::tok_i64;
use crate::text::{spec_tokens, tokenize_ws};

// ---------------------------------------------------------------------------
// Host network counters: one device line of the kernel's net device file.
// ---------------------------------------------------------------------------

#[derive(Debug, Clone, PartialEq)]
pub enum NetInfoError {
    IOError(String),
    EntryNotFound(String),
    InvalidEntry(String),
}

/// Receive-side counters, in the order the kernel reports them.
#[derive(Debug, Clone, Copy, PartialEq)]
pub struct NetRxInfo {
    pub bytes: i64,
    pub packets: i64,
    pub errs: i64,
    pub drop: i64,
    pub fifo: i64,
    pub frame: i64,
    pub compressed: i64,
    pub multicast: i64,
}

/// Transmit-side counters, in the order the kernel reports them.
#[derive(Debug, Clone, Copy, PartialEq)]
pub struct NetTxInfo {
    pub bytes: i64,
    pub packets: i64,
    pub errs: i64,
    pub drop: i64,
    pub fifo: i64,
    pub colls: i64,
    pub carrier: i64,
    pub compressed: i64,
}

/// One reading of a network device's counters.
#[derive(Debug, Clone, Copy, PartialEq)]
pub struct NetInfo {
    pub rx: NetRxInfo,
    pub tx: NetTxInfo,
}

/// Whether a net device line carries all sixteen counters after the
/// device-name token.
pub open spec fn spec_net_line_ok(toks: Seq<Seq<u8>>) -> bool {
    &&& toks.len() >= 17
    &&& forall|j: int| 1 <= j < 17 ==> #[trigger] tok_i64(toks, j) is Some
}

impl NetInfo {
    /// Parses one net device line: the first token names the device, the
    /// next eight are the receive counters, the following eight the
    /// transmit counters.
    pub fn parse(s: &str) -> (r: Result<NetInfo, NetInfoError>)
        ensures
            r is Ok <==> spec_net_line_ok(spec_tokens(s.spec_bytes())),
            r is Ok ==> {
                let toks = spec_tokens(s.spec_bytes());
                let n = r.unwrap();
                &&& n.rx.bytes == tok_i64(toks, 1).unwrap()
                &&& n.rx.packets == tok_i64(toks, 2).unwrap()
                &&& n.rx.errs == tok_i64(toks, 3).unwrap()
                &&& n.rx.drop == tok_i64(toks, 4).unwrap()
                &&& n.rx.fifo == tok_i64(toks, 5).unwrap()
                &&& n.rx.frame == tok_i64(toks, 6).unwrap()
                &&& n.rx.compressed == tok_i64(toks, 7).unwrap()
                &&& n.rx.multicast == tok_i64(toks, 8).unwrap()
                &&& n.tx.bytes == tok_i64(toks, 9).unwrap()
                &&& n.tx.packets == tok_i64(toks, 10).unwrap()
                &&& n.tx.errs == tok_i64(toks, 11).unwrap()
                &&& n.tx.drop == tok_i64(toks, 12).unwrap()
                &&& n.tx.fifo == tok_i64(toks, 13).unwrap()
                &&& n.tx.colls == tok_i64(toks, 14).unwrap()
                &&& n.tx.carrier == tok_i64(toks, 15).unwrap()
                &&& n.tx.compressed == tok_i64(toks, 16).unwrap()
            },
    {
        let tokens = tokenize_ws(s.as_bytes());
        proof {
            assert(tokens@.map_values(|v: Vec<u8>| v@) =~= spec_tokens(s.spec_bytes()));
        }
        Ok(
            NetInfo {
                rx: NetRxInfo {
                    bytes: parse_token(&tokens, 1, "rx_bytes")?,
                    packets: parse_token(&tokens, 2, "rx_packets")?,
                    errs: parse_token(&tokens, 3, "rx_errs")?,
                    drop: parse_token(&tokens, 4, "rx_drop")?,
                    fifo: parse_token(&tokens, 5, "rx_fifo")?,
                    frame: parse_token(&tokens, 6, "rx_frame")?,
                    compressed: parse_token(&tokens, 7, "rx_compressed")?,
                    multicast: parse_token(&tokens, 8, "rx_multicast")?,
                },
                tx: NetTxInfo {
                    bytes: parse_token(&tokens, 9, "tx_bytes")?,
                    packets: parse_token(&tokens, 10, "tx_packets")?,
                    errs: parse_token(&tokens, 11, "tx_errs")?,
                    drop: parse_token(&tokens, 12, "tx_drop")?,
                    fifo: parse_token(&tokens, 13, "tx_fifo")?,
                    colls: parse_token(&tokens, 14, "tx_colls")?,
                    carrier: parse_token(&tokens, 15, "tx_carrier")?,
                    compressed: parse_token(&tokens, 16, "tx_compressed")?,
                },
            },
        )
    }

    pub open spec fn can_sub(self, rhs: NetInfo) -> bool {
        self.rx.can_sub(rhs.rx) && self.tx.can_sub(rhs.tx)
    }

    /// All sixteen counter deltas: the receive and transmit sides,
    /// fieldwise.
    pub open spec fn spec_sub(self, rhs: NetInfo) -> NetInfo {
        NetInfo { rx: self.rx.spec_sub(rhs.rx), tx: self.tx.spec_sub(rhs.tx) }
    }

    /// The counter deltas between two readings.
    pub fn sub(self, rhs: NetInfo) -> (r: NetInfo)
        requires
            self.can_sub(rhs),
        ensures
            r == self.spec_sub(rhs),
    {
        NetInfo { rx: self.rx.sub(rhs.rx), tx: self.tx.sub(rhs.tx) }
    }
}

impl NetRxInfo {
    pub open spec fn can_sub(self, rhs: NetRxInfo) -> bool {
        &&& i64::MIN <= self.bytes - rhs.bytes <= i64::MAX
        &&& i64::MIN <= self.packets - rhs.packets <= i64::MAX
        &&& i64::MIN <= self.errs - rhs.errs <= i64::MAX
        &&& i64::MIN <= self.drop - rhs.drop <= i64::MAX
        &&& i64::MIN <= self.fifo - rhs.fifo <= i64::MAX
        &&& i64::MIN <= self.frame - rhs.frame <= i64::MAX
        &&& i64::MIN <= self.compressed - rhs.compressed <= i64::MAX
        &&& i64::MIN <= self.multicast - rhs.multicast <= i64::MAX
    }

    /// The receive-side deltas, fieldwise.
    pub open spec fn spec_sub(self, rhs: NetRxInfo) -> NetRxInfo {
        NetRxInfo {
            bytes: (self.bytes - rhs.bytes) as i64,
            packets: (self.packets - rhs.packets) as i64,
            errs: (self.errs - rhs.errs) as i64,
            drop: (self.drop - rhs.drop) as i64,
            fifo: (self.fifo - rhs.fifo) as i64,
            frame: (self.frame - rhs.frame) as i64,
            compressed: (self.compressed - rhs.compressed) as i64,
            multicast: (self.multicast - rhs.multicast) as i64,
        }
    }

    /// Receive-side counter deltas.
    pub fn sub(self, rhs: NetRxInfo) -> (r: NetRxInfo)
        requires
            self.can_sub(rhs),
        ensures
            r == self.spec_sub(rhs),
    {
        NetRxInfo {
            bytes: self.bytes - rhs.bytes,
            packets: self.packets - rhs.packets,
            errs: self.errs - rhs.errs,
            drop: self.drop - rhs.drop,
            fifo: self.fifo - rhs.fifo,
            frame: self.frame - rhs.frame,
            compressed: self.compressed - rhs.compressed,
            multicast: self.multicast - rhs.multicast,
        }
    }
}

impl NetTxInfo {
    pub open spec fn can_sub(self, rhs: NetTxInfo) -> bool {
        &&& i64::MIN <= self.bytes - rhs.bytes <= i64::MAX
        &&& i64::MIN <= self.packets - rhs.packets <= i64::MAX
        &&& i64::MIN <= self.errs - rhs.errs <= i64::MAX
        &&& i64::MIN <= self.drop - rhs.drop <= i64::MAX
        &&& i64::MIN <= self.fifo - rhs.fifo <= i64::MAX
        &&& i64::MIN <= self.colls - rhs.colls <= i64::MAX
        &&& i64::MIN <= self.carrier - rhs.carrier <= i64::MAX
        &&& i64::MIN <= self.compressed - rhs.compressed <= i64::MAX
    }

    /// The transmit-side deltas, fieldwise.
    pub open spec fn spec_sub(self, rhs: NetTxInfo) -> NetTxInfo {
        NetTxInfo {
            bytes: (self.bytes - rhs.bytes) as i64,
            packets: (self.packets - rhs.packets) as i64,
            errs: (self.errs - rhs.errs) as i64,
            drop: (self.drop - rhs.drop) as i64,
            fifo: (self.fifo - rhs.fifo) as i64,
            colls: (self.colls - rhs.colls) as i64,
            carrier: (self.carrier - rhs.carrier) as i64,
            compressed: (self.compressed - rhs.compressed) as i64,
        }
    }

    /// Transmit-side counter deltas.
    pub fn sub(self, rhs: NetTxInfo) -> (r: NetTxInfo)
        requires
            self.can_sub(rhs),
        ensures
            r == self.spec_sub(rhs),
    {
        NetTxInfo {
            bytes: self.bytes - rhs.bytes,
            packets: self.packets - rhs.packets,
            errs: self.errs - rhs.errs,
            drop: self.drop - rhs.drop,
            fifo: self.fifo - rhs.fifo,
            colls: self.colls - rhs.colls,
            carrier: self.carrier - rhs.carrier,
            compressed: self.compressed - rhs.compressed,
        }
    }
}

/// Parses the counter named `entry_name` at token position `i`.
fn parse_token(tokens: &Vec<Vec<u8>>, i: usize, entry_name: &str) -> (r: Result<i64, NetInfoError>)
    ensures
        r is Ok <==> tok_i64(tokens@.map_values(|v: Vec<u8>| v@), i as int) is Some,
        r is Ok ==> r.unwrap() == tok_i64(tokens@.map_values(|v: Vec<u8>| v@), i as int).unwrap(),
{
    if i >= tokens.len() {
        return Err(NetInfoError::EntryNotFound(entry_name.to_owned()));
    }
    proof {
        assert(tokens@.map_values(|v: Vec<u8>| v@)[i as int] == tokens@[i as int]@);
    }
    match crate::text::parse_i64_on_bytes(tokens[i].as_slice()) {
        Some(v) => Ok(v),
        None => Err(NetInfoError::InvalidEntry(entry_name.to_owned())),
    }
}

} // verus!
