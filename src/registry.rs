use std::str::FromStr;
use vstd::prelude::*;
use vstd::utf8::encode_utf8;

verus! {

/// One monitored nameserver: its published name and the IPv4 address that
/// the name must resolve to.
#[derive(Clone, Debug)]
pub struct NameServerEntry {
    /// Fully qualified domain name, written with its trailing dot.
    pub name: String,
    /// Expected address, most significant octet first.
    pub address: u32,
}

/// Why a list of entries cannot form a registry. Indices refer to the list.
#[derive(Clone, Copy, Debug, PartialEq, Eq, Structural)]
pub enum RegistryError {
    /// The name of this entry is not a domain name.
    InvalidName(usize),
    /// The name of this entry is a domain name but not a fully qualified one.
    NotFullyQualified(usize),
    /// These two entries, earlier one first, have the same name.
    DuplicateName(usize, usize),
}

/// Whether the DNS library accepts this text as a domain name.
pub uninterp spec fn dns_name_parses(s: Seq<char>) -> bool;

/// Relies on `trust_dns_client::rr::Name::from_str` (trust-dns-proto's
/// `Name::from_str_relaxed`): whether the text parses as a domain name. The
/// answer depends on the text alone.
#[verifier::external_body]
fn parses_as_dns_name(name: &str) -> (r: bool)
    ensures
        r == dns_name_parses(name@),
{
    trust_dns_client::rr::Name::from_str(name).is_ok()
}

/// The UTF-8 encoding of an entry's name.
pub open spec fn name_bytes(e: NameServerEntry) -> Seq<u8> {
    encode_utf8(e.name@)
}

/// ASCII letters compare without regard to case in domain names.
pub open spec fn fold_case(b: u8) -> u8 {
    if 0x41 <= b <= 0x5a {
        (b + 0x20) as u8
    } else {
        b
    }
}

/// Whether two encoded names denote the same domain name.
pub open spec fn same_name(a: Seq<u8>, b: Seq<u8>) -> bool {
    &&& a.len() == b.len()
    &&& forall|k: int| 0 <= k < a.len() ==> fold_case(#[trigger] a[k]) == fold_case(b[k])
}

/// A fully qualified name ends with the dot of the root label.
pub open spec fn is_fully_qualified(b: Seq<u8>) -> bool {
    b.len() > 0 && b.last() == 0x2e
}

/// Whether entry `i` is acceptable given the entries before it.
pub open spec fn entry_ok(s: Seq<NameServerEntry>, i: int) -> bool {
    &&& dns_name_parses(s[i].name@)
    &&& is_fully_qualified(name_bytes(s[i]))
    &&& forall|j: int| 0 <= j < i ==> !same_name(#[trigger] name_bytes(s[j]), name_bytes(s[i]))
}

/// Entries from which a registry can be built: every name is a fully qualified
/// domain name and no two entries share a name.
pub open spec fn valid_entries(s: Seq<NameServerEntry>) -> bool {
    forall|i: int| 0 <= i < s.len() ==> #[trigger] entry_ok(s, i)
}

/// The first entry among `j .. i` whose name is the same as that of entry `i`.
pub open spec fn earliest_same(s: Seq<NameServerEntry>, i: int, j: int) -> Option<int>
    decreases i - j,
{
    if 0 <= j < i {
        if same_name(name_bytes(s[j]), name_bytes(s[i])) {
            Some(j)
        } else {
            earliest_same(s, i, j + 1)
        }
    } else {
        None
    }
}

/// What is wrong with entry `i`, if anything, given the entries before it.
pub open spec fn entry_fault(s: Seq<NameServerEntry>, i: int) -> Option<RegistryError> {
    if !dns_name_parses(s[i].name@) {
        Some(RegistryError::InvalidName(i as usize))
    } else if !is_fully_qualified(name_bytes(s[i])) {
        Some(RegistryError::NotFullyQualified(i as usize))
    } else {
        match earliest_same(s, i, 0) {
            Some(j) => Some(RegistryError::DuplicateName(j as usize, i as usize)),
            None => None,
        }
    }
}

/// The fault of the first faulty entry from `i` on.
pub open spec fn first_fault(s: Seq<NameServerEntry>, i: int) -> Option<RegistryError>
    decreases s.len() - i,
{
    if 0 <= i < s.len() {
        match entry_fault(s, i) {
            Some(e) => Some(e),
            None => first_fault(s, i + 1),
        }
    } else {
        None
    }
}

/// Whether two encoded names denote the same domain name.
fn names_match(a: &[u8], b: &[u8]) -> (r: bool)
    ensures
        r == same_name(a@, b@),
{
    if a.len() != b.len() {
        return false;
    }
    let mut k: usize = 0;
    while k < a.len()
        invariant
            a@.len() == b@.len(),
            0 <= k <= a@.len(),
            forall|m: int| 0 <= m < k ==> fold_case(#[trigger] a@[m]) == fold_case(b@[m]),
        decreases a@.len() - k,
    {
        let x = a[k];
        let y = b[k];
        let fx: u8 = if 0x41 <= x && x <= 0x5a { x + 0x20 } else { x };
        let fy: u8 = if 0x41 <= y && y <= 0x5a { y + 0x20 } else { y };
        if fx != fy {
            return false;
        }
        k = k + 1;
    }
    true
}

/// The registry of monitored nameservers: an ordered list of entries with
/// distinct, fully qualified names, fixed once built.
#[derive(Clone, Debug)]
pub struct Registry {
    entries: Vec<NameServerEntry>,
}

impl View for Registry {
    type V = Seq<NameServerEntry>;

    closed spec fn view(&self) -> Seq<NameServerEntry> {
        self.entries@
    }
}

impl Registry {
    /// The registry's invariant; every registry that [`Registry::new`] returns
    /// has it.
    pub open spec fn wf(&self) -> bool {
        &&& valid_entries(self@)
        &&& self@.len() * self@.len() <= usize::MAX
    }

    /// Builds a registry from entries in the order given, or reports the
    /// first faulty entry: a name that is not a domain name, not fully
    /// qualified, or already taken by an earlier entry.
    pub fn new(entries: Vec<NameServerEntry>) -> (r: Result<Registry, RegistryError>)
        requires
            entries@.len() * entries@.len() <= usize::MAX,
        ensures
            r is Ok <==> valid_entries(entries@),
            r matches Ok(reg) ==> reg@ == entries@ && reg.wf(),
            r matches Err(e) ==> first_fault(entries@, 0) == Some(e),
    {
        let n = entries.len();
        let mut i: usize = 0;
        while i < n
            invariant
                n == entries@.len(),
                0 <= i <= n,
                forall|k: int| 0 <= k < i ==> #[trigger] entry_ok(entries@, k),
                first_fault(entries@, 0) == first_fault(entries@, i as int),
            decreases n - i,
        {
            if !parses_as_dns_name(entries[i].name.as_str()) {
                assert(!entry_ok(entries@, i as int));
                return Err(RegistryError::InvalidName(i));
            }
            let bytes = entries[i].name.as_str().as_bytes();
            if bytes.len() == 0 || bytes[bytes.len() - 1] != 0x2e {
                assert(!entry_ok(entries@, i as int));
                return Err(RegistryError::NotFullyQualified(i));
            }
            let mut j: usize = 0;
            while j < i
                invariant
                    n == entries@.len(),
                    0 <= j <= i < n,
                    bytes@ == name_bytes(entries@[i as int]),
                    dns_name_parses(entries@[i as int].name@),
                    is_fully_qualified(name_bytes(entries@[i as int])),
                    first_fault(entries@, 0) == first_fault(entries@, i as int),
                    forall|k: int| 0 <= k < i ==> #[trigger] entry_ok(entries@, k),
                    forall|m: int|
                        0 <= m < j ==> !same_name(
                            #[trigger] name_bytes(entries@[m]),
                            name_bytes(entries@[i as int]),
                        ),
                    earliest_same(entries@, i as int, 0) == earliest_same(entries@, i as int, j as int),
                decreases i - j,
            {
                if names_match(entries[j].name.as_str().as_bytes(), bytes) {
                    assert(earliest_same(entries@, i as int, j as int) == Some(j as int));
                    assert(!entry_ok(entries@, i as int));
                    assert(entry_fault(entries@, i as int) == Some(
                        RegistryError::DuplicateName(j, i),
                    ));
                    return Err(RegistryError::DuplicateName(j, i));
                }
                j = j + 1;
            }
            assert(earliest_same(entries@, i as int, j as int) is None);
            assert(entry_ok(entries@, i as int));
            i = i + 1;
        }
        Ok(Registry { entries })
    }

    /// The entries, in registry order.
    pub fn entries(&self) -> (r: &Vec<NameServerEntry>)
        ensures
            r@ == self@,
    {
        &self.entries
    }

    /// Number of nameservers.
    pub fn len(&self) -> (r: usize)
        ensures
            r == self@.len(),
    {
        self.entries.len()
    }
}

} // verus!
