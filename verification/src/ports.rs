use vstd::prelude::*;

use vstd::string::StrSliceExecFns;
use vstd::string::StringExecFns;

verus! {

/// What the operating system reports about a USB-attached port.
#[derive(Debug)]
pub struct UsbInfo {
    pub vid: u16,
    pub pid: u16,
    pub manufacturer: Option<String>,
    pub product: Option<String>,
    pub serial_number: Option<String>,
}

/// The transport class of an enumerated port.
#[derive(Debug)]
pub enum PortKind {
    Usb(UsbInfo),
    Pci,
    Bluetooth,
    Unknown,
}

/// One enumerated port as the operating system reports it.
#[derive(Debug)]
pub struct PortRecord {
    pub port_name: String,
    pub port_type: PortKind,
}

/// One port of the catalogue handed to callers: the transport class as a
/// display string, and USB identity fields where they apply.
#[derive(Debug, Clone)]
pub struct SerialPortInfo {
    pub port_name: String,
    pub port_type: String,
    pub vid: Option<String>,
    pub pid: Option<String>,
    pub manufacturer: Option<String>,
    pub product: Option<String>,
    pub serial_number: Option<String>,
}

/// Lexicographic order on identifiers, by code point; a prefix sorts first.
pub open spec fn lex_le(a: Seq<char>, b: Seq<char>) -> bool
    decreases a.len(),
{
    if a.len() == 0 {
        true
    } else if b.len() == 0 {
        false
    } else if (a[0] as u32) < (b[0] as u32) {
        true
    } else if (a[0] as u32) > (b[0] as u32) {
        false
    } else {
        lex_le(a.drop_first(), b.drop_first())
    }
}

/// Law: the identifier order is total — of any two identifiers one sorts
/// at or before the other.
pub proof fn lemma_lex_le_total(a: Seq<char>, b: Seq<char>)
    ensures
        lex_le(a, b) || lex_le(b, a),
    decreases a.len(),
{
    if a.len() == 0 {
    } else if b.len() == 0 {
    } else if (a[0] as u32) == (b[0] as u32) {
        lemma_lex_le_total(a.drop_first(), b.drop_first());
    }
}

/// Law: the identifier order is transitive.
pub proof fn lemma_lex_le_trans(a: Seq<char>, b: Seq<char>, c: Seq<char>)
    requires
        lex_le(a, b),
        lex_le(b, c),
    ensures
        lex_le(a, c),
    decreases a.len(),
{
    if a.len() == 0 {
    } else if (a[0] as u32) == (b[0] as u32) && (b[0] as u32) == (c[0] as u32) {
        lemma_lex_le_trans(a.drop_first(), b.drop_first(), c.drop_first());
    }
}

fn str_le(a: &str, b: &str) -> (r: bool)
    ensures
        r == lex_le(a@, b@),
{
    let na = a.unicode_len();
    let nb = b.unicode_len();
    let mut i: usize = 0;
    proof {
        assert(a@.skip(0) =~= a@);
        assert(b@.skip(0) =~= b@);
    }
    while i < na && i < nb
        invariant
            i <= na,
            i <= nb,
            na == a@.len(),
            nb == b@.len(),
            lex_le(a@, b@) == lex_le(a@.skip(i as int), b@.skip(i as int)),
        decreases na - i,
    {
        let ca = a.get_char(i);
        let cb = b.get_char(i);
        proof {
            assert(a@.skip(i as int).drop_first() =~= a@.skip(i as int + 1));
            assert(b@.skip(i as int).drop_first() =~= b@.skip(i as int + 1));
            assert(a@.skip(i as int)[0] == a@[i as int]);
            assert(b@.skip(i as int)[0] == b@[i as int]);
        }
        if (ca as u32) < (cb as u32) {
            return true;
        }
        if (ca as u32) > (cb as u32) {
            return false;
        }
        i += 1;
    }
    na <= nb
}

/// Whether `a` names a port that sorts at or before `b`.
pub fn name_le(a: &String, b: &String) -> (r: bool)
    ensures
        r == lex_le(a@, b@),
{
    str_le(a.as_str(), b.as_str())
}

/// The display name of a transport class.
pub open spec fn spec_port_type_name(kind: PortKind) -> Seq<char> {
    match kind {
        PortKind::Usb(_) => "USB"@,
        PortKind::Pci => "PCI"@,
        PortKind::Bluetooth => "Bluetooth"@,
        PortKind::Unknown => "Unknown"@,
    }
}

/// Names the transport class of a port.
pub fn port_type_to_string(port_type: &PortKind) -> (r: String)
    ensures
        r@ == spec_port_type_name(*port_type),
{
    match port_type {
        PortKind::Usb(_) => "USB".to_owned(),
        PortKind::Pci => "PCI".to_owned(),
        PortKind::Bluetooth => "Bluetooth".to_owned(),
        PortKind::Unknown => "Unknown".to_owned(),
    }
}

/// The lowercase hexadecimal digit for a value below sixteen.
pub open spec fn hex_char(d: u16) -> char {
    if d == 0 {
        '0'
    } else if d == 1 {
        '1'
    } else if d == 2 {
        '2'
    } else if d == 3 {
        '3'
    } else if d == 4 {
        '4'
    } else if d == 5 {
        '5'
    } else if d == 6 {
        '6'
    } else if d == 7 {
        '7'
    } else if d == 8 {
        '8'
    } else if d == 9 {
        '9'
    } else if d == 10 {
        'a'
    } else if d == 11 {
        'b'
    } else if d == 12 {
        'c'
    } else if d == 13 {
        'd'
    } else if d == 14 {
        'e'
    } else {
        'f'
    }
}

/// The four-digit lowercase hexadecimal rendering of a sixteen-bit value.
pub open spec fn spec_hex4(value: u16) -> Seq<char> {
    seq![
        hex_char((value >> 12) & 0xf),
        hex_char((value >> 8) & 0xf),
        hex_char((value >> 4) & 0xf),
        hex_char(value & 0xf),
    ]
}

fn hex_digit_str(d: u16) -> (r: &'static str)
    requires
        d < 16,
    ensures
        r@ == seq![hex_char(d)],
{
    if d == 0 {
        proof {
            reveal_strlit("0");
            assert("0"@ =~= seq![hex_char(d)]);
        }
        "0"
    } else if d == 1 {
        proof {
            reveal_strlit("1");
            assert("1"@ =~= seq![hex_char(d)]);
        }
        "1"
    } else if d == 2 {
        proof {
            reveal_strlit("2");
            assert("2"@ =~= seq![hex_char(d)]);
        }
        "2"
    } else if d == 3 {
        proof {
            reveal_strlit("3");
            assert("3"@ =~= seq![hex_char(d)]);
        }
        "3"
    } else if d == 4 {
        proof {
            reveal_strlit("4");
            assert("4"@ =~= seq![hex_char(d)]);
        }
        "4"
    } else if d == 5 {
        proof {
            reveal_strlit("5");
            assert("5"@ =~= seq![hex_char(d)]);
        }
        "5"
    } else if d == 6 {
        proof {
            reveal_strlit("6");
            assert("6"@ =~= seq![hex_char(d)]);
        }
        "6"
    } else if d == 7 {
        proof {
            reveal_strlit("7");
            assert("7"@ =~= seq![hex_char(d)]);
        }
        "7"
    } else if d == 8 {
        proof {
            reveal_strlit("8");
            assert("8"@ =~= seq![hex_char(d)]);
        }
        "8"
    } else if d == 9 {
        proof {
            reveal_strlit("9");
            assert("9"@ =~= seq![hex_char(d)]);
        }
        "9"
    } else if d == 10 {
        proof {
            reveal_strlit("a");
            assert("a"@ =~= seq![hex_char(d)]);
        }
        "a"
    } else if d == 11 {
        proof {
            reveal_strlit("b");
            assert("b"@ =~= seq![hex_char(d)]);
        }
        "b"
    } else if d == 12 {
        proof {
            reveal_strlit("c");
            assert("c"@ =~= seq![hex_char(d)]);
        }
        "c"
    } else if d == 13 {
        proof {
            reveal_strlit("d");
            assert("d"@ =~= seq![hex_char(d)]);
        }
        "d"
    } else if d == 14 {
        proof {
            reveal_strlit("e");
            assert("e"@ =~= seq![hex_char(d)]);
        }
        "e"
    } else {
        proof {
            reveal_strlit("f");
            assert("f"@ =~= seq![hex_char(d)]);
        }
        "f"
    }
}

/// Renders a sixteen-bit identifier as exactly four lowercase hex digits.
pub fn format_hex4(value: u16) -> (r: String)
    ensures
        r@ == spec_hex4(value),
        r@.len() == 4,
{
    let d1 = (value >> 12) & 0xf;
    let d2 = (value >> 8) & 0xf;
    let d3 = (value >> 4) & 0xf;
    let d4 = value & 0xf;
    proof {
        assert(((value >> 12) & 0xf) < 16) by (bit_vector);
        assert(((value >> 8) & 0xf) < 16) by (bit_vector);
        assert(((value >> 4) & 0xf) < 16) by (bit_vector);
        assert((value & 0xf) < 16) by (bit_vector);
    }
    let mut s = String::new();
    s.append(hex_digit_str(d1));
    s.append(hex_digit_str(d2));
    s.append(hex_digit_str(d3));
    s.append(hex_digit_str(d4));
    proof {
        assert(s@ =~= spec_hex4(value));
    }
    s
}

/// A USB field that may be absent: the value itself, or "Unknown".
pub open spec fn spec_or_unknown(value: Option<Seq<char>>) -> Seq<char> {
    match value {
        Option::Some(s) => s,
        Option::None => "Unknown"@,
    }
}

/// How the catalogue describes one enumerated port: the name is kept, the
/// transport class is named, and a USB port carries its four-digit hex
/// vid/pid and its descriptive strings, "Unknown" where absent; any other
/// transport carries no identity fields.
pub open spec fn described(rec: PortRecord, info: SerialPortInfo) -> bool {
    &&& info.port_name@ == rec.port_name@
    &&& info.port_type@ == spec_port_type_name(rec.port_type)
    &&& match rec.port_type {
        PortKind::Usb(u) => {
            &&& info.vid matches Some(v) && v@ == spec_hex4(u.vid)
            &&& info.pid matches Some(p) && p@ == spec_hex4(u.pid)
            &&& info.manufacturer matches Some(m) && m@ == spec_or_unknown(
                u.manufacturer.deep_view(),
            )
            &&& info.product matches Some(p) && p@ == spec_or_unknown(u.product.deep_view())
            &&& info.serial_number.deep_view() == u.serial_number.deep_view()
        },
        PortKind::Pci => no_identity(info),
        PortKind::Bluetooth => no_identity(info),
        PortKind::Unknown => no_identity(info),
    }
}

/// No USB identity fields are present.
pub open spec fn no_identity(info: SerialPortInfo) -> bool {
    &&& info.vid is None
    &&& info.pid is None
    &&& info.manufacturer is None
    &&& info.product is None
    &&& info.serial_number is None
}

/// Describes one USB port: hex-formatted identifiers, descriptive strings
/// defaulting to "Unknown" where the system reported none.
pub fn port_info_to_serial_port_info(port_info: UsbInfo, port_name: String) -> (r: SerialPortInfo)
    ensures
        described((PortRecord { port_name, port_type: PortKind::Usb(port_info) }), r),
{
    let UsbInfo { vid, pid, manufacturer, product, serial_number } = port_info;
    let vid_hex = format_hex4(vid);
    let pid_hex = format_hex4(pid);
    let manufacturer_name = match manufacturer {
        Some(m) => m,
        None => "Unknown".to_owned(),
    };
    let product_name = match product {
        Some(p) => p,
        None => "Unknown".to_owned(),
    };
    SerialPortInfo {
        port_name,
        port_type: "USB".to_owned(),
        vid: Some(vid_hex),
        pid: Some(pid_hex),
        manufacturer: Some(manufacturer_name),
        product: Some(product_name),
        serial_number,
    }
}

/// Describes one enumerated port of any transport class.
pub fn describe_port(record: PortRecord) -> (r: SerialPortInfo)
    ensures
        described(record, r),
{
    let PortRecord { port_name, port_type } = record;
    match port_type {
        PortKind::Usb(info) => port_info_to_serial_port_info(info, port_name),
        PortKind::Pci => SerialPortInfo {
            port_name,
            port_type: "PCI".to_owned(),
            vid: None,
            pid: None,
            manufacturer: None,
            product: None,
            serial_number: None,
        },
        PortKind::Bluetooth => SerialPortInfo {
            port_name,
            port_type: "Bluetooth".to_owned(),
            vid: None,
            pid: None,
            manufacturer: None,
            product: None,
            serial_number: None,
        },
        PortKind::Unknown => SerialPortInfo {
            port_name,
            port_type: "Unknown".to_owned(),
            vid: None,
            pid: None,
            manufacturer: None,
            product: None,
            serial_number: None,
        },
    }
}

/// The records stand in identifier order.
pub open spec fn sorted_records(s: Seq<PortRecord>) -> bool {
    forall|i: int, j: int|
        0 <= i < j < s.len() ==> lex_le(#[trigger] s[i].port_name@, #[trigger] s[j].port_name@)
}

fn sort_records(records: Vec<PortRecord>) -> (r: Vec<PortRecord>)
    ensures
        sorted_records(r@),
        r@.to_multiset() == records@.to_multiset(),
        r@.len() == records@.len(),
{
    let mut input = records;
    let mut output: Vec<PortRecord> = Vec::new();
    proof {
        broadcast use vstd::seq_lib::group_to_multiset_ensures;

        assert(output@.to_multiset().add(input@.to_multiset()) =~= records@.to_multiset());
    }
    while input.len() > 0
        invariant
            output@.to_multiset().add(input@.to_multiset()) == records@.to_multiset(),
            output@.len() + input@.len() == records@.len(),
            sorted_records(output@),
            forall|i: int, j: int|
                0 <= i < output@.len() && 0 <= j < input@.len() ==> lex_le(
                    #[trigger] output@[i].port_name@,
                    #[trigger] input@[j].port_name@,
                ),
        decreases input@.len(),
    {
        let mut m: usize = 0;
        let mut k: usize = 1;
        proof {
            lemma_lex_le_total(input@[0].port_name@, input@[0].port_name@);
        }
        while k < input.len()
            invariant
                0 < input@.len(),
                m < k,
                k <= input@.len(),
                forall|j: int|
                    0 <= j < k ==> lex_le(
                        input@[m as int].port_name@,
                        #[trigger] input@[j].port_name@,
                    ),
            decreases input@.len() - k,
        {
            if name_le(&input[k].port_name, &input[m].port_name) {
                proof {
                    assert forall|j: int| 0 <= j < k + 1 implies lex_le(
                        input@[k as int].port_name@,
                        #[trigger] input@[j].port_name@,
                    ) by {
                        if j < k {
                            lemma_lex_le_trans(
                                input@[k as int].port_name@,
                                input@[m as int].port_name@,
                                input@[j].port_name@,
                            );
                        } else {
                            lemma_lex_le_total(
                                input@[k as int].port_name@,
                                input@[k as int].port_name@,
                            );
                        }
                    }
                }
                m = k;
            } else {
                proof {
                    lemma_lex_le_total(input@[m as int].port_name@, input@[k as int].port_name@);
                }
            }
            k += 1;
        }
        let ghost old_input = input@;
        let ghost old_output = output@;
        let picked = input.remove(m);
        output.push(picked);
        proof {
            broadcast use vstd::seq_lib::group_to_multiset_ensures;

            assert(old_input.contains(picked)) by {
                assert(old_input[m as int] == picked);
            }
            assert(output@.to_multiset().add(input@.to_multiset()) =~= old_output.to_multiset().add(
                old_input.to_multiset(),
            ));
            assert forall|i: int, j: int|
                0 <= i < output@.len() && 0 <= j < input@.len() implies lex_le(
                #[trigger] output@[i].port_name@,
                #[trigger] input@[j].port_name@,
            ) by {
                let orig_j: int = if j < m { j } else { j + 1 };
                assert(input@[j] == old_input[orig_j]);
                if i < old_output.len() {
                    assert(lex_le(output@[i].port_name@, old_input[orig_j].port_name@));
                } else {
                    assert(output@[i] == picked);
                    assert(lex_le(old_input[m as int].port_name@, old_input[orig_j].port_name@));
                }
            }
            assert forall|i: int, j: int| 0 <= i < j < output@.len() implies lex_le(
                #[trigger] output@[i].port_name@,
                #[trigger] output@[j].port_name@,
            ) by {
                if j < old_output.len() {
                } else {
                    assert(output@[j] == picked);
                    assert(lex_le(old_output[i].port_name@, old_input[m as int].port_name@));
                }
            }
        }
    }
    proof {
        broadcast use vstd::seq_lib::group_to_multiset_ensures;

        assert(input@.to_multiset().len() == 0);
        assert(output@.to_multiset().add(input@.to_multiset()) =~= output@.to_multiset());
    }
    output
}

/// What the returned catalogue is: the descriptions, one for one and in
/// order, of some identifier-sorted rearrangement of the enumerated records.
pub open spec fn catalogue_of(
    records: Seq<PortRecord>,
    arranged: Seq<PortRecord>,
    catalogue: Seq<SerialPortInfo>,
) -> bool {
    &&& arranged.to_multiset() == records.to_multiset()
    &&& sorted_records(arranged)
    &&& arranged.len() == catalogue.len()
    &&& forall|i: int| 0 <= i < arranged.len() ==> described(arranged[i], #[trigger] catalogue[i])
}

/// Builds the catalogue of available ports from the records the operating
/// system enumeration reported: sorted by identifier for deterministic
/// ordering, each classified by transport type and, for USB, enriched with
/// vendor/product identity.
pub fn available_ports(records: Vec<PortRecord>) -> (r: Vec<SerialPortInfo>)
    ensures
        r@.len() == records@.len(),
        exists|arranged: Seq<PortRecord>| catalogue_of(records@, arranged, r@),
{
    let sorted = sort_records(records);
    let ghost arranged = sorted@;
    let mut input = sorted;
    let mut out: Vec<SerialPortInfo> = Vec::new();
    proof {
        assert(arranged.skip(0) =~= arranged);
    }
    while input.len() > 0
        invariant
            arranged.len() == out@.len() + input@.len(),
            input@ == arranged.skip(out@.len() as int),
            sorted_records(arranged),
            arranged.to_multiset() == records@.to_multiset(),
            forall|i: int| 0 <= i < out@.len() ==> described(arranged[i], #[trigger] out@[i]),
        decreases input@.len(),
    {
        let ghost k: int = out@.len() as int;
        let ghost prev = input@;
        let rec = input.remove(0);
        proof {
            assert(arranged.skip(k)[0] == arranged[k]);
            assert(arranged.skip(k).drop_first() =~= arranged.skip(k + 1));
            assert(prev.remove(0) =~= prev.drop_first());
        }
        let info = describe_port(rec);
        out.push(info);
    }
    proof {
        assert(out@.len() == arranged.len());
        assert(catalogue_of(records@, arranged, out@));
    }
    out
}

} // verus!
