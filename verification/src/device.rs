//! The device's identity on the network: its chip id, its MQTT client id
//! and the topics it uses.
use crate::text::{chars_of, owned, push_all};
use crate::wifi::{colon_hex, mac_text};
use vstd::prelude::*;

verus! {

/// Topic on which commands for every device arrive.
pub const SHARED_CONTROL_TOPIC: &'static str = "istorrs/led/control";

/// The chip id of a device with this base MAC address: its bytes as
/// colon-separated hexadecimal pairs.
pub fn chip_id(mac: [u8; 6]) -> (res: String)
    ensures
        res@ == colon_hex(mac@),
{
    mac_text(mac)
}

pub open spec fn not_colon(c: char) -> bool {
    c != ':'
}

/// `esp32-led-` then the chip id without its colons.
pub open spec fn client_id_text(chip_id: Seq<char>) -> Seq<char> {
    "esp32-led-"@ + chip_id.filter(|c: char| not_colon(c))
}

/// The MQTT client id of the device with this chip id.
pub fn mqtt_client_id(chip_id: &str) -> (res: String)
    ensures
        res@ == client_id_text(chip_id@),
{
    let ghost pred = |c: char| not_colon(c);
    let cs = chars_of(chip_id);
    let mut res = owned("esp32-led-");
    let ghost start = res@;
    let mut i: usize = 0;
    while i < cs.len()
        invariant
            i <= cs@.len(),
            cs@ == chip_id@,
            pred == (|c: char| not_colon(c)),
            start == "esp32-led-"@,
            res@ == start + cs@.take(i as int).filter(pred),
        decreases cs@.len() - i,
    {
        let c = cs[i];
        let ghost before = cs@.take(i as int).filter(pred);
        if c != ':' {
            res.push(c);
        }
        i = i + 1;
        proof {
            reveal_with_fuel(Seq::<_>::filter, 1);
            let t = cs@.take(i as int);
            assert(t.drop_last() =~= cs@.take(i - 1));
            assert(t.last() == c);
            assert(t.filter(pred) == (if pred(c) {
                before.push(c)
            } else {
                before
            }));
            assert(res@ =~= start + t.filter(pred));
        }
    }
    assert(cs@.take(i as int) =~= cs@);
    res
}

/// `istorrs/led/{chip_id}/{leaf}`.
pub open spec fn device_topic_text(chip_id: Seq<char>, leaf: Seq<char>) -> Seq<char> {
    "istorrs/led/"@ + chip_id + "/"@ + leaf
}

/// The device's topic named `leaf` (`control`, `status`, `event/config`,
/// `event/error`).
pub fn device_topic(chip_id: &str, leaf: &str) -> (res: String)
    ensures
        res@ == device_topic_text(chip_id@, leaf@),
{
    let mut res = owned("istorrs/led/");
    push_all(&mut res, chip_id);
    push_all(&mut res, "/");
    push_all(&mut res, leaf);
    res
}

} // verus!
