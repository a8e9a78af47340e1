use vstd::prelude::*;
use vstd::string::StringExecFns;

verus! {

use crate::text::dec_chars;
use crate::usage::{CpuUsage, MemoryUsage, IoUsage, NetUsage, Usage, Usages, ContainerUsage};
use crate::cache::{TimedCpuUsage, TimedMemoryUsage, TimedIoUsage, TimedNetUsage};
use crate::store::LogVec;

// ---------------------------------------------------------------------------
// JSON rendering.
//
// Every sample type renders itself to the exact JSON text the HTTP API and
// the daily log emit.  Absent values render as `null`, never as `0`, so a
// monitoring client can tell "idle" from "unknown".  Fixed-point
// percentages render with their two fraction digits (`8000` as `80.00`).
// ---------------------------------------------------------------------------

/// The characters of an optional integer: its decimal digits, or `null`.
pub open spec fn opt_u64_chars(v: Option<u64>) -> Seq<char> {
    match v {
        Some(x) => dec_chars(x as nat),
        None => seq!['n', 'u', 'l', 'l'],
    }
}

pub open spec fn opt_u32_chars(v: Option<u32>) -> Seq<char> {
    match v {
        Some(x) => dec_chars(x as nat),
        None => seq!['n', 'u', 'l', 'l'],
    }
}

pub open spec fn opt_u8_chars(v: Option<u8>) -> Seq<char> {
    match v {
        Some(x) => dec_chars(x as nat),
        None => seq!['n', 'u', 'l', 'l'],
    }
}

/// The characters of an optional fixed-point percentage: units, a dot and
/// two fraction digits, or `null`.
pub open spec fn opt_hundredths_chars(v: Option<u64>) -> Seq<char> {
    match v {
        Some(x) => dec_chars((x / 100) as nat) + seq![
            '.',
            crate::text::digit_char(((x % 100) / 10) as nat),
            crate::text::digit_char((x % 10) as nat),
        ],
        None => seq!['n', 'u', 'l', 'l'],
    }
}

fn null_string() -> (r: String)
    ensures
        r@ =~= seq!['n', 'u', 'l', 'l'],
{
    proof {
        reveal_strlit("null");
    }
    "null".to_owned()
}

/// Renders an optional integer.
pub fn opt_u64_to_json(v: &Option<u64>) -> (r: String)
    ensures
        r@ =~= opt_u64_chars(*v),
{
    match v {
        Some(x) => crate::text::u64_to_dec(*x),
        None => null_string(),
    }
}

pub fn opt_u32_to_json(v: &Option<u32>) -> (r: String)
    ensures
        r@ =~= opt_u32_chars(*v),
{
    match v {
        Some(x) => crate::text::u64_to_dec(*x as u64),
        None => null_string(),
    }
}

pub fn opt_u8_to_json(v: &Option<u8>) -> (r: String)
    ensures
        r@ =~= opt_u8_chars(*v),
{
    match v {
        Some(x) => crate::text::u64_to_dec(*x as u64),
        None => null_string(),
    }
}

/// Renders an optional fixed-point percentage with two fraction digits.
pub fn opt_hundredths_to_json(v: &Option<u64>) -> (r: String)
    ensures
        r@ =~= opt_hundredths_chars(*v),
{
    match v {
        Some(x) => {
            let mut s = crate::text::u64_to_dec(*x / 100);
            proof {
                reveal_strlit(".");
            }
            s.append(".");
            s.append(crate::text::digit_str((*x % 100) / 10));
            s.append(crate::text::digit_str(*x % 10));
            s
        },
        None => null_string(),
    }
}

/// A value that renders itself as one JSON text.
pub trait JsonSample {
    spec fn json_chars(&self) -> Seq<char>;

    fn to_json(&self) -> (r: String)
        ensures
            r@ =~= self.json_chars(),
    ;
}

impl JsonSample for CpuUsage {
    open spec fn json_chars(&self) -> Seq<char> {
        "{\"percentage\":"@ + opt_hundredths_chars(self.percentage) + ",\"total\":"@
            + opt_u64_chars(self.total) + ",\"system\":"@ + opt_u64_chars(self.system)
            + ",\"ncpu\":"@ + opt_u8_chars(self.ncpu) + "}"@
    }

    fn to_json(&self) -> (r: String) {
        let mut s = "{\"percentage\":".to_owned();
        s.append(opt_hundredths_to_json(&self.percentage).as_str());
        s.append(",\"total\":");
        s.append(opt_u64_to_json(&self.total).as_str());
        s.append(",\"system\":");
        s.append(opt_u64_to_json(&self.system).as_str());
        s.append(",\"ncpu\":");
        s.append(opt_u8_to_json(&self.ncpu).as_str());
        s.append("}");
        s
    }
}

impl JsonSample for MemoryUsage {
    open spec fn json_chars(&self) -> Seq<char> {
        "{\"percentage\":"@ + opt_hundredths_chars(self.percentage) + ",\"used\":"@
            + opt_u64_chars(self.used) + ",\"available\":"@ + opt_u64_chars(self.available) + "}"@
    }

    fn to_json(&self) -> (r: String) {
        let mut s = "{\"percentage\":".to_owned();
        s.append(opt_hundredths_to_json(&self.percentage).as_str());
        s.append(",\"used\":");
        s.append(opt_u64_to_json(&self.used).as_str());
        s.append(",\"available\":");
        s.append(opt_u64_to_json(&self.available).as_str());
        s.append("}");
        s
    }
}

impl JsonSample for IoUsage {
    open spec fn json_chars(&self) -> Seq<char> {
        "{\"readkB\":"@ + opt_u64_chars(self.readkB) + ",\"writekB\":"@ + opt_u64_chars(
            self.writekB,
        ) + ",\"readkBps\":"@ + opt_u32_chars(self.readkBps) + ",\"writekBps\":"@ + opt_u32_chars(
            self.writekBps,
        ) + "}"@
    }

    fn to_json(&self) -> (r: String) {
        let mut s = "{\"readkB\":".to_owned();
        s.append(opt_u64_to_json(&self.readkB).as_str());
        s.append(",\"writekB\":");
        s.append(opt_u64_to_json(&self.writekB).as_str());
        s.append(",\"readkBps\":");
        s.append(opt_u32_to_json(&self.readkBps).as_str());
        s.append(",\"writekBps\":");
        s.append(opt_u32_to_json(&self.writekBps).as_str());
        s.append("}");
        s
    }
}

impl JsonSample for NetUsage {
    open spec fn json_chars(&self) -> Seq<char> {
        "{\"recvkB\":"@ + opt_u64_chars(self.recvkB) + ",\"sendkB\":"@ + opt_u64_chars(
            self.sendkB,
        ) + ",\"recvkBps\":"@ + opt_u32_chars(self.recvkBps) + ",\"sendkBps\":"@ + opt_u32_chars(
            self.sendkBps,
        ) + "}"@
    }

    fn to_json(&self) -> (r: String) {
        let mut s = "{\"recvkB\":".to_owned();
        s.append(opt_u64_to_json(&self.recvkB).as_str());
        s.append(",\"sendkB\":");
        s.append(opt_u64_to_json(&self.sendkB).as_str());
        s.append(",\"recvkBps\":");
        s.append(opt_u32_to_json(&self.recvkBps).as_str());
        s.append(",\"sendkBps\":");
        s.append(opt_u32_to_json(&self.sendkBps).as_str());
        s.append("}");
        s
    }
}

impl JsonSample for Usage {
    open spec fn json_chars(&self) -> Seq<char> {
        "{\"cpu\":"@ + self.cpu.json_chars() + ",\"memory\":"@ + self.memory.json_chars()
            + ",\"io\":"@ + self.io.json_chars() + ",\"net\":"@ + self.net.json_chars() + "}"@
    }

    fn to_json(&self) -> (r: String) {
        let mut s = "{\"cpu\":".to_owned();
        s.append(self.cpu.to_json().as_str());
        s.append(",\"memory\":");
        s.append(self.memory.to_json().as_str());
        s.append(",\"io\":");
        s.append(self.io.to_json().as_str());
        s.append(",\"net\":");
        s.append(self.net.to_json().as_str());
        s.append("}");
        s
    }
}

impl JsonSample for TimedCpuUsage {
    open spec fn json_chars(&self) -> Seq<char> {
        "{\"time\":\""@ + self.time@ + "\",\"percentage\":"@ + opt_hundredths_chars(
            self.percentage,
        ) + "}"@
    }

    fn to_json(&self) -> (r: String) {
        let mut s = "{\"time\":\"".to_owned();
        s.append(self.time.as_str());
        s.append("\",\"percentage\":");
        s.append(opt_hundredths_to_json(&self.percentage).as_str());
        s.append("}");
        s
    }
}

impl JsonSample for TimedMemoryUsage {
    open spec fn json_chars(&self) -> Seq<char> {
        "{\"time\":\""@ + self.time@ + "\",\"percentage\":"@ + opt_hundredths_chars(
            self.percentage,
        ) + "}"@
    }

    fn to_json(&self) -> (r: String) {
        let mut s = "{\"time\":\"".to_owned();
        s.append(self.time.as_str());
        s.append("\",\"percentage\":");
        s.append(opt_hundredths_to_json(&self.percentage).as_str());
        s.append("}");
        s
    }
}

impl JsonSample for TimedIoUsage {
    open spec fn json_chars(&self) -> Seq<char> {
        "{\"time\":\""@ + self.time@ + "\",\"readkBps\":"@ + opt_u32_chars(self.readkBps)
            + ",\"writekBps\":"@ + opt_u32_chars(self.writekBps) + "}"@
    }

    fn to_json(&self) -> (r: String) {
        let mut s = "{\"time\":\"".to_owned();
        s.append(self.time.as_str());
        s.append("\",\"readkBps\":");
        s.append(opt_u32_to_json(&self.readkBps).as_str());
        s.append(",\"writekBps\":");
        s.append(opt_u32_to_json(&self.writekBps).as_str());
        s.append("}");
        s
    }
}

impl JsonSample for TimedNetUsage {
    open spec fn json_chars(&self) -> Seq<char> {
        "{\"time\":\""@ + self.time@ + "\",\"recvkBps\":"@ + opt_u32_chars(self.recvkBps)
            + ",\"sendkBps\":"@ + opt_u32_chars(self.sendkBps) + "}"@
    }

    fn to_json(&self) -> (r: String) {
        let mut s = "{\"time\":\"".to_owned();
        s.append(self.time.as_str());
        s.append("\",\"recvkBps\":");
        s.append(opt_u32_to_json(&self.recvkBps).as_str());
        s.append(",\"sendkBps\":");
        s.append(opt_u32_to_json(&self.sendkBps).as_str());
        s.append("}");
        s
    }
}

/// The comma-joined renderings of a sequence of samples.
pub open spec fn json_items_chars<T: JsonSample>(s: Seq<T>) -> Seq<char>
    decreases s.len(),
{
    if s.len() == 0 {
        Seq::empty()
    } else if s.len() == 1 {
        s[0].json_chars()
    } else {
        json_items_chars(s.drop_last()) + ","@ + s.last().json_chars()
    }
}

/// The comma-joined renderings of a sequence of borrowed samples.
pub open spec fn json_items_chars_ref<T: JsonSample>(s: Seq<&T>) -> Seq<char>
    decreases s.len(),
{
    if s.len() == 0 {
        Seq::empty()
    } else if s.len() == 1 {
        s[0].json_chars()
    } else {
        json_items_chars_ref(s.drop_last()) + ","@ + s.last().json_chars()
    }
}

/// Rendering borrowed samples is rendering the samples themselves: the
/// two comma-joined forms agree whenever the references point at equal
/// values.
pub proof fn lemma_items_chars_ref_eq<T: JsonSample>(rs: Seq<&T>, vs: Seq<T>)
    requires
        rs.len() == vs.len(),
        forall|i: int| 0 <= i < rs.len() ==> *(#[trigger] rs[i]) == vs[i],
    ensures
        json_items_chars_ref(rs) == json_items_chars(vs),
    decreases rs.len(),
{
    if rs.len() > 0 {
        assert forall|i: int| 0 <= i < rs.drop_last().len() implies *(#[trigger] rs.drop_last()[i])
            == vs.drop_last()[i] by {
            assert(rs.drop_last()[i] == rs[i]);
            assert(vs.drop_last()[i] == vs[i]);
        }
        lemma_items_chars_ref_eq(rs.drop_last(), vs.drop_last());
        assert(*rs.last() == vs.last());
    }
}

/// Renders borrowed samples as one JSON array.
pub fn data_to_json<T: JsonSample>(data: Vec<&T>) -> (r: String)
    ensures
        r@ =~= "["@ + json_items_chars_ref(data@) + "]"@,
{
    let mut s = "[".to_owned();
    let n = data.len();
    let mut i: usize = 0;
    while i < n
        invariant
            0 <= i <= n,
            n == data@.len(),
            s@ =~= "["@ + json_items_chars_ref(data@.take(i as int)),
        decreases n - i,
    {
        proof {
            assert(data@.take(i + 1).drop_last() =~= data@.take(i as int));
            assert(data@.take(i + 1).last() == data@[i as int]);
            assert(data@.take(i + 1)[0] == data@[0]);
        }
        if i > 0 {
            s.append(",");
        }
        s.append(data[i].to_json().as_str());
        i = i + 1;
    }
    proof {
        assert(data@.take(n as int) =~= data@);
    }
    s.append("]");
    s
}

impl<T: JsonSample> LogVec<T> {
    /// Renders the whole history as one JSON array, oldest sample first.
    pub fn to_json(&self) -> (r: String)
        ensures
            r@ =~= "["@ + json_items_chars(self@) + "]"@,
    {
        let mut s = "[".to_owned();
        let n = self.len();
        let mut i: usize = 0;
        while i < n
            invariant
                0 <= i <= n,
                n == self@.len(),
                s@ =~= "["@ + json_items_chars(self@.take(i as int)),
            decreases n - i,
        {
            proof {
                assert(self@.take(i + 1).drop_last() =~= self@.take(i as int));
                assert(self@.take(i + 1).last() == self@[i as int]);
                assert(self@.take(i + 1)[0] == self@[0]);
            }
            if i > 0 {
                s.append(",");
            }
            s.append(self.get(i).to_json().as_str());
            i = i + 1;
        }
        proof {
            assert(self@.take(n as int) =~= self@);
        }
        s.append("]");
        s
    }
}

/// One tick's log line: the timestamp, the tick length, and every
/// container's rendered usage keyed by its name.
pub open spec fn usages_entries_chars(s: Seq<ContainerUsage>) -> Seq<char>
    decreases s.len(),
{
    if s.len() == 0 {
        Seq::empty()
    } else if s.len() == 1 {
        "\""@ + s[0].name@ + "\":"@ + s[0].usage.json_chars()
    } else {
        usages_entries_chars(s.drop_last()) + ","@ + "\""@ + s.last().name@ + "\":"@
            + s.last().usage.json_chars()
    }
}

pub open spec fn usages_json_chars(u: Usages) -> Seq<char> {
    "{\"time\":\""@ + u.time@ + "\",\"millis\":"@ + dec_chars(u.millis as nat) + ",\"stats\":{"@
        + usages_entries_chars(u.usages@) + "}}"@
}

impl Usages {
    /// Renders the tick as one line of the daily log.
    #[verifier::rlimit(50)]
    pub fn to_json(&self) -> (r: String)
        ensures
            r@ =~= usages_json_chars(*self),
    {
        let mut s = "{\"time\":\"".to_owned();
        s.append(self.time.as_str());
        s.append("\",\"millis\":");
        s.append(crate::text::u64_to_dec(self.millis as u64).as_str());
        s.append(",\"stats\":{");
        let n = self.usages.len();
        let mut i: usize = 0;
        while i < n
            invariant
                0 <= i <= n,
                n == self.usages@.len(),
                s@ =~= "{\"time\":\""@ + self.time@ + "\",\"millis\":"@ + dec_chars(
                    self.millis as nat,
                ) + ",\"stats\":{"@ + usages_entries_chars(self.usages@.take(i as int)),
            decreases n - i,
        {
            proof {
                assert(self.usages@.take(i + 1).drop_last() =~= self.usages@.take(i as int));
                assert(self.usages@.take(i + 1).last() == self.usages@[i as int]);
                assert(self.usages@.take(i + 1)[0] == self.usages@[0]);
            }
            if i > 0 {
                s.append(",");
            }
            s.append("\"");
            s.append(self.usages[i].name.as_str());
            s.append("\":");
            s.append(self.usages[i].usage.to_json().as_str());
            i = i + 1;
        }
        proof {
            assert(self.usages@.take(n as int) =~= self.usages@);
        }
        s.append("}}");
        s
    }
}

} // verus!
