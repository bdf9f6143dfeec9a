//! The observation record and the verified pieces of the snapshot parser.

use vstd::prelude::*;

verus! {

use vstd::string::StringSliceAdditionalSpecFns;

/// One timestamped wind sample.
///
/// `time` is in seconds since the Unix epoch; two observations with the same
/// `time` are considered duplicates. `direction` is a compass bearing in
/// integer degrees in `[0, 360)`. `avg_speed` is the average wind speed in
/// tenths of a metre per second; only its ordering against a tracker's
/// threshold ever matters.
#[derive(Clone, Copy, PartialEq, Eq, Structural, Debug)]
pub struct Observation {
    pub time: i64,
    pub direction: u16,
    pub avg_speed: u32,
}

/// An ASCII decimal digit.
pub open spec fn is_ascii_digit(b: u8) -> bool {
    48 <= b <= 57
}

/// The UTF-8 encoding of the degree sign starts at position `i`.
pub open spec fn degree_mark_at(s: Seq<u8>, i: int) -> bool {
    &&& 0 <= i
    &&& i + 2 <= s.len()
    &&& s[i] == 0xc2u8
    &&& s[i + 1] == 0xb0u8
}

/// A run of exactly `l` digits starting at `i`, followed by a degree sign.
pub open spec fn digit_run_at(s: Seq<u8>, i: int, l: int) -> bool {
    &&& 0 <= i
    &&& 1 <= l <= 3
    &&& i + l <= s.len()
    &&& forall|j: int| i <= j < i + l ==> is_ascii_digit(#[trigger] s[j])
    &&& degree_mark_at(s, i + l)
}

/// The numeric value of a run of 1 to 3 digits starting at `i`.
pub open spec fn digits_value(s: Seq<u8>, i: int, l: int) -> int {
    if l == 1 {
        s[i] - 48
    } else if l == 2 {
        (s[i] - 48) * 10 + (s[i + 1] - 48)
    } else {
        (s[i] - 48) * 100 + (s[i + 1] - 48) * 10 + (s[i + 2] - 48)
    }
}

/// The value captured by the first (leftmost, then longest) run of 1 to 3
/// digits that a degree sign follows, scanning from position `i` on.
pub open spec fn first_degree_capture(s: Seq<u8>, i: int) -> Option<int>
    decreases s.len() - i,
{
    if i >= s.len() {
        None
    } else if digit_run_at(s, i, 3) {
        Some(digits_value(s, i, 3))
    } else if digit_run_at(s, i, 2) {
        Some(digits_value(s, i, 2))
    } else if digit_run_at(s, i, 1) {
        Some(digits_value(s, i, 1))
    } else {
        first_degree_capture(s, i + 1)
    }
}

/// The bearing a direction cell denotes: the first captured degree number,
/// accepted when it does not exceed 360 and normalized so that 360 reads as
/// north again.
pub open spec fn direction_of(s: Seq<u8>) -> Option<u16> {
    match first_degree_capture(s, 0) {
        Some(v) => if v <= 360 {
            Some((v % 360) as u16)
        } else {
            None
        },
        None => None,
    }
}

/// The compass anchor bearings a formatter rounds to, in the order of its
/// name table: north written both as 0 and as 360, then the remaining seven
/// points clockwise.
pub open spec fn compass_anchors() -> Seq<u16> {
    seq![0u16, 360u16, 45u16, 90u16, 135u16, 180u16, 225u16, 270u16, 315u16]
}

/// The absolute difference of two bearings (no wraparound; 0 and 360 both
/// stand in the anchor table, which makes wraparound handling unnecessary).
pub open spec fn bearing_distance(a: int, b: int) -> int {
    if a >= b {
        a - b
    } else {
        b - a
    }
}

fn distance_to(direction: u16, anchor: u16) -> (d: u16)
    ensures
        d == bearing_distance(direction as int, anchor as int),
{
    if direction >= anchor {
        direction - anchor
    } else {
        anchor - direction
    }
}

/// The index of the compass anchor nearest to `direction`; on a tie the
/// earlier entry of the table wins. A formatter uses this to pick the
/// cardinal name and arrow for a bearing.
pub fn compass_index(direction: u16) -> (idx: usize)
    ensures
        idx < compass_anchors().len(),
        forall|k: int|
            0 <= k < compass_anchors().len() ==> bearing_distance(
                direction as int,
                compass_anchors()[idx as int] as int,
            ) <= bearing_distance(direction as int, compass_anchors()[k] as int),
        forall|k: int|
            0 <= k < idx ==> bearing_distance(
                direction as int,
                compass_anchors()[idx as int] as int,
            ) < bearing_distance(direction as int, compass_anchors()[k] as int),
{
    let mut anchors: Vec<u16> = Vec::new();
    anchors.push(0);
    anchors.push(360);
    anchors.push(45);
    anchors.push(90);
    anchors.push(135);
    anchors.push(180);
    anchors.push(225);
    anchors.push(270);
    anchors.push(315);
    proof {
        assert(anchors@ =~= compass_anchors());
    }
    let mut best: usize = 0;
    let mut k: usize = 1;
    while k < anchors.len()
        invariant
            anchors@ == compass_anchors(),
            best < k <= anchors@.len(),
            forall|t: int|
                0 <= t < k ==> bearing_distance(
                    direction as int,
                    anchors@[best as int] as int,
                ) <= bearing_distance(direction as int, anchors@[t] as int),
            forall|t: int|
                0 <= t < best ==> bearing_distance(
                    direction as int,
                    anchors@[best as int] as int,
                ) < bearing_distance(direction as int, anchors@[t] as int),
        decreases anchors@.len() - k,
    {
        if distance_to(direction, anchors[k]) < distance_to(direction, anchors[best]) {
            best = k;
        }
        k += 1;
    }
    best
}

fn is_digit_byte(b: u8) -> (r: bool)
    ensures
        r == is_ascii_digit(b),
{
    48 <= b && b <= 57
}

/// Parses a direction cell such as `СЗЗ (301°)`: the first number of one to
/// three digits written before a degree sign, rejected when above 360.
pub fn direction_parser(input: &str) -> (r: Option<u16>)
    ensures
        r == direction_of(input.spec_bytes()),
{
    let bytes: &[u8] = input.as_bytes();
    let n: usize = bytes.len();
    let mut i: usize = 0;
    while i < n
        invariant
            i <= n,
            n == bytes@.len(),
            first_degree_capture(bytes@, 0) == first_degree_capture(bytes@, i as int),
        ensures
            i <= n,
            n == bytes@.len(),
            match first_degree_capture(bytes@, 0) {
                Some(v) => {
                    &&& i < n
                    &&& exists|l: int|
                        digit_run_at(bytes@, i as int, l) && v == digits_value(bytes@, i as int, l)
                },
                None => i == n,
            },
        decreases n - i,
    {
        let rem = n - i;
        let run3 = rem >= 5 && is_digit_byte(bytes[i]) && is_digit_byte(bytes[i + 1])
            && is_digit_byte(bytes[i + 2]) && bytes[i + 3] == 0xc2 && bytes[i + 4] == 0xb0;
        let run2 = rem >= 4 && is_digit_byte(bytes[i]) && is_digit_byte(bytes[i + 1]) && bytes[i
            + 2] == 0xc2 && bytes[i + 3] == 0xb0;
        let run1 = rem >= 3 && is_digit_byte(bytes[i]) && bytes[i + 1] == 0xc2 && bytes[i + 2]
            == 0xb0;
        proof {
            assert(run3 == digit_run_at(bytes@, i as int, 3));
            assert(run2 == digit_run_at(bytes@, i as int, 2));
            assert(run1 == digit_run_at(bytes@, i as int, 1));
        }
        if run3 || run2 || run1 {
            break ;
        }
        i += 1;
    }
    if i == n {
        return None;
    }
    // a run was found at position i; read its digits, longest first
    let rem = n - i;
    let run3 = rem >= 5 && is_digit_byte(bytes[i]) && is_digit_byte(bytes[i + 1])
        && is_digit_byte(bytes[i + 2]) && bytes[i + 3] == 0xc2 && bytes[i + 4] == 0xb0;
    let run2 = rem >= 4 && is_digit_byte(bytes[i]) && is_digit_byte(bytes[i + 1]) && bytes[i + 2]
        == 0xc2 && bytes[i + 3] == 0xb0;
    proof {
        assert(run3 == digit_run_at(bytes@, i as int, 3));
        assert(run2 == digit_run_at(bytes@, i as int, 2));
        if !run3 && !run2 {
            assert(digit_run_at(bytes@, i as int, 1));
        }
    }
    let v: u32 = if run3 {
        (bytes[i] - 48) as u32 * 100 + (bytes[i + 1] - 48) as u32 * 10 + (bytes[i + 2]
            - 48) as u32
    } else if run2 {
        (bytes[i] - 48) as u32 * 10 + (bytes[i + 1] - 48) as u32
    } else {
        (bytes[i] - 48) as u32
    };
    if v <= 360 {
        Some((v % 360) as u16)
    } else {
        None
    }
}

} // verus!
