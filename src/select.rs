use vstd::prelude::*;

verus! {

/// ASCII code of the digit zero.
pub const DIGIT_ZERO: u8 = 48;

/// ASCII code of the digit nine.
pub const DIGIT_NINE: u8 = 57;

/// How the output device is picked from the devices found.
#[derive(Debug, Clone, Copy, PartialEq, Eq, Structural)]
pub enum DeviceChoice {
    /// There is no output device to play to.
    NoDevices,
    /// Exactly one device exists: it is taken without asking.
    Only,
    /// Several devices exist: the user is asked for an index.
    Ask,
}

/// Decides how to pick among `count` output devices.
pub fn choose_device(count: usize) -> (r: DeviceChoice)
    ensures
        count == 0 <==> r == DeviceChoice::NoDevices,
        count == 1 <==> r == DeviceChoice::Only,
        count > 1 <==> r == DeviceChoice::Ask,
{
    if count == 0 {
        DeviceChoice::NoDevices
    } else if count == 1 {
        DeviceChoice::Only
    } else {
        DeviceChoice::Ask
    }
}

/// Whether a byte is an ASCII decimal digit.
pub open spec fn is_digit(b: u8) -> bool {
    DIGIT_ZERO <= b && b <= DIGIT_NINE
}

/// The index that an answer line selects among `count` devices: its first
/// byte read as one decimal digit, when that digit names a device.
pub open spec fn selected_index(line: Seq<u8>, count: nat) -> Option<usize> {
    if line.len() > 0 && is_digit(line[0]) && ((line[0] - DIGIT_ZERO) as nat) < count {
        Some((line[0] - DIGIT_ZERO) as usize)
    } else {
        None
    }
}

/// Reads the device index from the first character of an answer line.
/// `None` means the answer names no device and should be asked again.
pub fn parse_selection(line: &[u8], count: usize) -> (r: Option<usize>)
    ensures
        r == selected_index(line@, count as nat),
{
    if line.len() == 0 {
        return None;
    }
    let first = line[0];
    if first < DIGIT_ZERO || first > DIGIT_NINE {
        return None;
    }
    let index = (first - DIGIT_ZERO) as usize;
    if index < count {
        Some(index)
    } else {
        None
    }
}

/// Byte-wise lexicographic order on names, the order of `str` comparison.
pub open spec fn name_le(a: Seq<u8>, b: Seq<u8>) -> bool
    decreases a.len(),
{
    if a.len() == 0 {
        true
    } else if b.len() == 0 {
        false
    } else if a[0] != b[0] {
        a[0] < b[0]
    } else {
        name_le(a.skip(1), b.skip(1))
    }
}

/// Any two names are ordered one way or the other.
pub proof fn lemma_name_le_total(a: Seq<u8>, b: Seq<u8>)
    ensures
        name_le(a, b) || name_le(b, a),
    decreases a.len(),
{
    if a.len() > 0 && b.len() > 0 && a[0] == b[0] {
        lemma_name_le_total(a.skip(1), b.skip(1));
    }
}

/// The order on names is transitive.
pub proof fn lemma_name_le_transitive(a: Seq<u8>, b: Seq<u8>, c: Seq<u8>)
    requires
        name_le(a, b),
        name_le(b, c),
    ensures
        name_le(a, c),
    decreases a.len(),
{
    if a.len() > 0 && b.len() > 0 && c.len() > 0 && a[0] == b[0] && b[0] == c[0] {
        lemma_name_le_transitive(a.skip(1), b.skip(1), c.skip(1));
    }
}

/// Compares two names byte by byte.
fn name_at_most(a: &Vec<u8>, b: &Vec<u8>) -> (r: bool)
    ensures
        r == name_le(a@, b@),
{
    let mut i: usize = 0;
    assert(a@.skip(0) =~= a@);
    assert(b@.skip(0) =~= b@);
    while i < a.len() && i < b.len() && a[i] == b[i]
        invariant
            i <= a@.len(),
            i <= b@.len(),
            name_le(a@, b@) == name_le(a@.skip(i as int), b@.skip(i as int)),
        decreases a@.len() - i,
    {
        assert(a@.skip(i as int).skip(1) =~= a@.skip(i as int + 1));
        assert(b@.skip(i as int).skip(1) =~= b@.skip(i as int + 1));
        i = i + 1;
    }
    if i == a.len() {
        true
    } else if i == b.len() {
        false
    } else {
        a[i] < b[i]
    }
}

/// The name of the device at index `i`.
pub open spec fn name_of(names: Seq<Vec<u8>>, i: usize) -> Seq<u8> {
    names[i as int]@
}

/// `order` lists each index of `names` once, so that the names it visits
/// are in increasing order, and devices of equal name keep their places.
pub open spec fn is_name_order(names: Seq<Vec<u8>>, order: Seq<usize>) -> bool {
    &&& order.len() == names.len()
    &&& forall|j: int| 0 <= j < order.len() ==> order[j] < names.len()
    &&& forall|j1: int, j2: int|
        0 <= j1 < order.len() && 0 <= j2 < order.len() && j1 != j2 ==> order[j1] != order[j2]
    &&& forall|j1: int, j2: int|
        0 <= j1 < j2 < order.len() ==> name_le(
            name_of(names, order[j1]),
            name_of(names, order[j2]),
        )
    &&& forall|j1: int, j2: int|
        0 <= j1 < j2 < order.len() && name_le(
            name_of(names, order[j2]),
            name_of(names, order[j1]),
        ) ==> order[j1] < order[j2]
}

/// The indices of `names` in the order of the names, equal names keeping
/// the order in which they were given.
pub fn order_by_name(names: &Vec<Vec<u8>>) -> (r: Vec<usize>)
    ensures
        is_name_order(names@, r@),
{
    let mut order: Vec<usize> = Vec::new();
    let mut k: usize = 0;
    while k < names.len()
        invariant
            k <= names@.len(),
            order@.len() == k,
            forall|j: int| 0 <= j < order@.len() ==> order@[j] < k,
            forall|j1: int, j2: int|
                0 <= j1 < order@.len() && 0 <= j2 < order@.len() && j1 != j2 ==> order@[j1]
                    != order@[j2],
            forall|j1: int, j2: int|
                0 <= j1 < j2 < order@.len() ==> name_le(
                    name_of(names@, order@[j1]),
                    name_of(names@, order@[j2]),
                ),
            forall|j1: int, j2: int|
                0 <= j1 < j2 < order@.len() && name_le(
                    name_of(names@, order@[j2]),
                    name_of(names@, order@[j1]),
                ) ==> order@[j1] < order@[j2],
        decreases names@.len() - k,
    {
        let mut p: usize = 0;
        while p < order.len() && name_at_most(&names[order[p]], &names[k])
            invariant
                p <= order@.len(),
                order@.len() == k,
                k < names@.len(),
                forall|j: int| 0 <= j < order@.len() ==> order@[j] < k,
                forall|j: int| 0 <= j < p ==> name_le(name_of(names@, order@[j]), name_of(names@, k)),
            decreases order@.len() - p,
        {
            p = p + 1;
        }
        proof {
            assert forall|j: int| p <= j < order@.len() implies !name_le(
                name_of(names@, order@[j]),
                name_of(names@, k),
            ) by {
                if name_le(name_of(names@, order@[j]), name_of(names@, k)) {
                    lemma_name_le_transitive(
                        name_of(names@, order@[p as int]),
                        name_of(names@, order@[j]),
                        name_of(names@, k),
                    );
                }
            }
            assert forall|j: int| p <= j < order@.len() implies name_le(
                name_of(names@, k),
                name_of(names@, order@[j]),
            ) by {
                lemma_name_le_total(name_of(names@, k), name_of(names@, order@[j]));
            }
        }
        let ghost before = order@;
        order.insert(p, k);
        assert(order@ =~= before.insert(p as int, k));
        k = k + 1;
    }
    order
}

} // verus!
