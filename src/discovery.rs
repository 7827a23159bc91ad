//! GPU discovery: devices reported by the vendor telemetry API come first,
//! then the primary cards of the kernel's DRM class directory, leaving out
//! NVIDIA cards there since the vendor API already covers them. Discovery runs
//! once; the order it yields is the identity of each device from then on.

use vstd::prelude::*;
use vstd::string::*;
use crate::fixed::{decimal, push_decimal};
use crate::text::{all_digits, contains_text, has_part, is_digit, trim_text, trimmed};

verus! {

/// How the metrics of a device are reached.
pub enum GpuHandle {
    /// Index of the device in the vendor telemetry API.
    Nvidia(u32),
    /// Path of the card's directory in the DRM class tree.
    Sysfs(String),
}

/// A device found at startup.
pub struct GpuDescriptor {
    pub name: String,
    pub handle: GpuHandle,
}

/// A device that the vendor telemetry API lists: its index, and its name
/// where the API gave one.
pub struct NvidiaDevice {
    pub index: u32,
    pub name: Option<String>,
}

/// An entry of the DRM class directory, with the text of its files (empty
/// where a file could not be read).
pub struct SysfsCard {
    /// The entry's name, such as `card0` or `card0-DP-1`.
    pub name: String,
    /// The entry's directory.
    pub path: String,
    /// Text of `device/vendor`.
    pub vendor: String,
    /// Text of `device/product_name`.
    pub product_name: String,
}

/// PCI vendor ids as the kernel writes them.
pub open spec fn nvidia_id() -> Seq<char> {
    "0x10de"@
}

pub open spec fn amd_id() -> Seq<char> {
    "0x1002"@
}

pub open spec fn intel_id() -> Seq<char> {
    "0x8086"@
}

/// A primary card entry: `card` followed by a card number and nothing else.
pub open spec fn primary_card(n: Seq<char>) -> bool {
    &&& n.len() > 4
    &&& n[0] == 'c' && n[1] == 'a' && n[2] == 'r' && n[3] == 'd'
    &&& all_digits(n.skip(4))
}

pub open spec fn is_nvidia_vendor(vendor: Seq<char>) -> bool {
    trimmed(vendor) == nvidia_id()
}

/// Whether the DRM scan yields a device for this entry.
pub open spec fn scanned(c: SysfsCard) -> bool {
    primary_card(c.name@) && !is_nvidia_vendor(c.vendor@)
}

/// The display name of a scanned card: the product name it reports, else a
/// label for a vendor id that its vendor text contains, else a generic label with the card's name.
pub open spec fn card_label(c: SysfsCard) -> Seq<char> {
    let product = trimmed(c.product_name@);
    let vendor = trimmed(c.vendor@);
    if product.len() > 0 {
        product
    } else if has_part(vendor, amd_id()) {
        "AMD Radeon Graphics"@
    } else if has_part(vendor, intel_id()) {
        "Intel HD/UHD Graphics"@
    } else {
        "GPU ("@ + c.name@ + ")"@
    }
}

/// The display name of a device of the vendor API.
pub open spec fn nvidia_label(d: NvidiaDevice) -> Seq<char> {
    match d.name {
        Some(n) => n@,
        None => "GPU "@ + decimal(d.index as nat),
    }
}

pub open spec fn is_nvidia_descriptor(g: GpuDescriptor, d: NvidiaDevice) -> bool {
    g.name@ == nvidia_label(d) && g.handle == GpuHandle::Nvidia(d.index)
}

pub open spec fn is_card_descriptor(g: GpuDescriptor, c: SysfsCard) -> bool {
    g.name@ == card_label(c) && match g.handle {
        GpuHandle::Sysfs(p) => p@ == c.path@,
        GpuHandle::Nvidia(_) => false,
    }
}

/// The entries that the DRM scan yields a device for, in directory order.
pub open spec fn scanned_cards(cards: Seq<SysfsCard>) -> Seq<SysfsCard> {
    cards.filter(|c: SysfsCard| scanned(c))
}

fn text_is(t: &String, lit: &str) -> (r: bool)
    ensures
        r == (t@ == lit@),
{
    *t == String::from_str(lit)
}

/// Whether a DRM entry is a primary card rather than a connector or render
/// node.
pub fn is_primary_card(name: &str) -> (r: bool)
    ensures
        r == primary_card(name@),
{
    let n = name.unicode_len();
    if n <= 4 {
        return false;
    }
    if !(name.get_char(0) == 'c' && name.get_char(1) == 'a' && name.get_char(2) == 'r'
        && name.get_char(3) == 'd') {
        return false;
    }
    let mut i: usize = 4;
    while i < n
        invariant
            4 <= i <= n,
            n == name@.len(),
            forall|j: int| 4 <= j < i ==> is_digit(#[trigger] name@[j]),
        decreases n - i,
    {
        let c = name.get_char(i);
        if !('0' <= c && c <= '9') {
            assert(!is_digit(name@.skip(4)[i - 4]));
            return false;
        }
        i += 1;
    }
    assert forall|j: int| 0 <= j < name@.skip(4).len() implies is_digit(
        #[trigger] name@.skip(4)[j],
    ) by {
        assert(name@.skip(4)[j] == name@[j + 4]);
    }
    true
}

/// Whether the text of a `device/vendor` file names NVIDIA.
pub fn is_nvidia(vendor: &str) -> (r: bool)
    ensures
        r == is_nvidia_vendor(vendor@),
{
    text_is(&trim_text(vendor), "0x10de")
}

/// The display name of a scanned card.
pub fn card_name(card: &SysfsCard) -> (r: String)
    ensures
        r@ == card_label(*card),
{
    let product = trim_text(card.product_name.as_str());
    if product.unicode_len() > 0 {
        return product;
    }
    let vendor = trim_text(card.vendor.as_str());
    if contains_text(vendor.as_str(), "0x1002") {
        String::from_str("AMD Radeon Graphics")
    } else if contains_text(vendor.as_str(), "0x8086") {
        String::from_str("Intel HD/UHD Graphics")
    } else {
        let mut s = String::from_str("GPU (");
        s.append(card.name.as_str());
        s.append(")");
        s
    }
}

/// The device that the DRM scan yields for an entry, if any.
pub fn scan_card(card: &SysfsCard) -> (r: Option<GpuDescriptor>)
    ensures
        r is Some <==> scanned(*card),
        r matches Some(g) ==> is_card_descriptor(g, *card),
{
    if !is_primary_card(card.name.as_str()) || is_nvidia(card.vendor.as_str()) {
        return None;
    }
    let path = card.path.clone();
    Some(GpuDescriptor { name: card_name(card), handle: GpuHandle::Sysfs(path) })
}

/// The descriptor of a device of the vendor API.
pub fn nvidia_descriptor(device: &NvidiaDevice) -> (r: GpuDescriptor)
    ensures
        is_nvidia_descriptor(r, *device),
{
    let name = match &device.name {
        Some(n) => n.clone(),
        None => {
            let mut s = String::from_str("GPU ");
            push_decimal(&mut s, device.index as u64);
            s
        },
    };
    GpuDescriptor { name, handle: GpuHandle::Nvidia(device.index) }
}

/// The ordered device list: every device of the vendor API, then every
/// device of the DRM scan.
pub fn discover(nvidia: &Vec<NvidiaDevice>, cards: &Vec<SysfsCard>) -> (r: Vec<GpuDescriptor>)
    ensures
        r@.len() == nvidia@.len() + scanned_cards(cards@).len(),
        forall|i: int| 0 <= i < nvidia@.len() ==> is_nvidia_descriptor(#[trigger] r@[i], nvidia@[i]),
        forall|j: int|
            0 <= j < scanned_cards(cards@).len() ==> is_card_descriptor(
                #[trigger] r@[nvidia@.len() + j],
                scanned_cards(cards@)[j],
            ),
{
    let mut out: Vec<GpuDescriptor> = Vec::new();
    let mut i: usize = 0;
    while i < nvidia.len()
        invariant
            i <= nvidia@.len(),
            out@.len() == i,
            forall|k: int| 0 <= k < i ==> is_nvidia_descriptor(#[trigger] out@[k], nvidia@[k]),
        decreases nvidia@.len() - i,
    {
        out.push(nvidia_descriptor(&nvidia[i]));
        i += 1;
    }
    let base = out.len();
    let mut j: usize = 0;
    proof {
        reveal(Seq::filter);
        assert(cards@.subrange(0, 0) =~= Seq::<SysfsCard>::empty());
    }
    while j < cards.len()
        invariant
            j <= cards@.len(),
            base == nvidia@.len(),
            out@.len() == base + scanned_cards(cards@.subrange(0, j as int)).len(),
            forall|k: int| 0 <= k < base ==> is_nvidia_descriptor(#[trigger] out@[k], nvidia@[k]),
            forall|k: int|
                0 <= k < scanned_cards(cards@.subrange(0, j as int)).len() ==> is_card_descriptor(
                    #[trigger] out@[base + k],
                    scanned_cards(cards@.subrange(0, j as int))[k],
                ),
        decreases cards@.len() - j,
    {
        let ghost prev = cards@.subrange(0, j as int);
        proof {
            reveal(Seq::filter);
            assert(cards@.subrange(0, j + 1).drop_last() =~= prev);
        }
        match scan_card(&cards[j]) {
            Some(g) => {
                out.push(g);
            },
            None => {},
        }
        j += 1;
    }
    assert(cards@.subrange(0, cards@.len() as int) =~= cards@);
    out
}

/// The DRM scan never yields a device for a card whose vendor id is
/// NVIDIA's, whatever the vendor API reported: every device it yields stems
/// from a listed card of another vendor.
pub proof fn lemma_scan_skips_nvidia(cards: Seq<SysfsCard>)
    ensures
        forall|j: int|
            0 <= j < scanned_cards(cards).len() ==> !is_nvidia_vendor(
                (#[trigger] scanned_cards(cards)[j]).vendor@,
            ) && cards.contains(scanned_cards(cards)[j]),
{
    broadcast use vstd::seq_lib::group_filter_ensures;
    assert forall|j: int| 0 <= j < scanned_cards(cards).len() implies !is_nvidia_vendor(
        (#[trigger] scanned_cards(cards)[j]).vendor@,
    ) && cards.contains(scanned_cards(cards)[j]) by {
        let f = |c: SysfsCard| scanned(c);
        assert(f(cards.filter(f)[j]));
        lemma_scanned_listed(cards, j);
    }
}

proof fn lemma_scanned_listed(cards: Seq<SysfsCard>, j: int)
    requires
        0 <= j < scanned_cards(cards).len(),
    ensures
        cards.contains(scanned_cards(cards)[j]),
    decreases cards.len(),
{
    reveal(Seq::filter);
    let rest = cards.drop_last();
    let sub = scanned_cards(rest);
    if j < sub.len() {
        lemma_scanned_listed(rest, j);
        let k = choose|k: int| 0 <= k < rest.len() && rest[k] == sub[j];
        assert(cards[k] == rest[k]);
    } else {
        assert(cards[cards.len() - 1] == scanned_cards(cards)[j]);
    }
}

} // verus!
