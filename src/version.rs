use vstd::prelude::*;
use vstd::string::*;

use crate::error::{CoreError, Validator};

verus! {

/// The version that every new file entry starts with.
pub const REGISTRY_VERSION_GENESIS: &'static str = "0.1.0";

pub const MSG_VERSION_EMPTY: &'static str = "File version cannot be empty";

pub const MSG_VERSION_CHARS: &'static str = "File version can only contain digit characters & dots";

pub const MSG_VERSION_EMPTY_PART: &'static str = "File version must contain at least one non-empty part";

pub const MSG_VERSION_PART_COUNT: &'static str = "File version can have at most three parts";

pub const MSG_VERSION_NOT_UNSIGNED: &'static str = "Each part of the file version must be a valid unsigned integer";

pub const MSG_VERSION_ZERO: &'static str = "File version cannot be zero";

pub const MSG_VERSION_RANGE: &'static str = "Each part of the file version must be between 0 and 255";

/// The largest value a version part may hold.
pub const PART_MAX: u64 = 255;

/// One more than the largest unsigned 32-bit value: a part at or above it is no unsigned integer.
pub const PART_CAP: u64 = 0x1_0000_0000;

pub open spec fn is_digit(c: char) -> bool {
    '0' <= c && c <= '9'
}

pub open spec fn is_version_char(c: char) -> bool {
    is_digit(c) || c == '.'
}

pub open spec fn digit_value(c: char) -> nat {
    ((c as u32) - ('0' as u32)) as nat
}

/// The dot-separated parts of `s`, in order. A string without a dot is a single part.
pub open spec fn split_parts(s: Seq<char>) -> Seq<Seq<char>>
    decreases s.len(),
{
    if s.len() == 0 {
        seq![Seq::<char>::empty()]
    } else {
        let head = split_parts(s.drop_last());
        if s.last() == '.' {
            head.push(Seq::<char>::empty())
        } else {
            head.update(head.len() - 1, head.last().push(s.last()))
        }
    }
}

/// The number written by a string of decimal digits.
pub open spec fn decimal(p: Seq<char>) -> nat
    decreases p.len(),
{
    if p.len() == 0 {
        0
    } else {
        decimal(p.drop_last()) * 10 + digit_value(p.last())
    }
}

/// The rules a version string can break, in the order they are checked.
#[derive(Debug, Clone, Copy, PartialEq, Eq, Structural)]
pub enum VersionFault {
    Empty,
    ForeignChar,
    EmptyPart,
    PartCount,
    NotUnsigned,
    Zero,
    OutOfRange,
}

/// The first rule that the version string `s` breaks, or `None` for a valid version.
pub open spec fn version_fault(s: Seq<char>) -> Option<VersionFault> {
    let ps = split_parts(s);
    if s.len() == 0 {
        Some(VersionFault::Empty)
    } else if exists|i: int| 0 <= i < s.len() && !is_version_char(#[trigger] s[i]) {
        Some(VersionFault::ForeignChar)
    } else if exists|j: int| 0 <= j < ps.len() && (#[trigger] ps[j]).len() == 0 {
        Some(VersionFault::EmptyPart)
    } else if ps.len() != 3 {
        Some(VersionFault::PartCount)
    } else if exists|j: int| 0 <= j < 3 && decimal(#[trigger] ps[j]) >= PART_CAP {
        Some(VersionFault::NotUnsigned)
    } else if decimal(ps[0]) == 0 && decimal(ps[1]) == 0 && decimal(ps[2]) == 0 {
        Some(VersionFault::Zero)
    } else if exists|j: int| 0 <= j < 3 && decimal(#[trigger] ps[j]) > PART_MAX {
        Some(VersionFault::OutOfRange)
    } else {
        None
    }
}

pub open spec fn fault_message(f: VersionFault) -> Seq<char> {
    match f {
        VersionFault::Empty => MSG_VERSION_EMPTY@,
        VersionFault::ForeignChar => MSG_VERSION_CHARS@,
        VersionFault::EmptyPart => MSG_VERSION_EMPTY_PART@,
        VersionFault::PartCount => MSG_VERSION_PART_COUNT@,
        VersionFault::NotUnsigned => MSG_VERSION_NOT_UNSIGNED@,
        VersionFault::Zero => MSG_VERSION_ZERO@,
        VersionFault::OutOfRange => MSG_VERSION_RANGE@,
    }
}

/// The message of the first rule that the version string `s` breaks.
pub open spec fn version_fault_message(s: Seq<char>) -> Option<Seq<char>> {
    match version_fault(s) {
        None => None,
        Some(f) => Some(fault_message(f)),
    }
}

impl VersionFault {
    pub fn message(&self) -> (r: &'static str)
        ensures
            r@ == fault_message(*self),
    {
        match self {
            VersionFault::Empty => MSG_VERSION_EMPTY,
            VersionFault::ForeignChar => MSG_VERSION_CHARS,
            VersionFault::EmptyPart => MSG_VERSION_EMPTY_PART,
            VersionFault::PartCount => MSG_VERSION_PART_COUNT,
            VersionFault::NotUnsigned => MSG_VERSION_NOT_UNSIGNED,
            VersionFault::Zero => MSG_VERSION_ZERO,
            VersionFault::OutOfRange => MSG_VERSION_RANGE,
        }
    }
}

pub open spec fn capped(n: nat) -> nat {
    if n >= PART_CAP { PART_CAP as nat } else { n }
}

proof fn lemma_split_parts_nonempty(s: Seq<char>)
    ensures
        split_parts(s).len() >= 1,
    decreases s.len(),
{
    if s.len() > 0 {
        lemma_split_parts_nonempty(s.drop_last());
    }
}

/// Reading one more character of a version string: how its parts change.
proof fn lemma_split_parts_step(s: Seq<char>, i: int)
    requires
        0 <= i < s.len(),
    ensures
        split_parts(s.take(i)).len() >= 1,
        s[i] == '.' ==> split_parts(s.take(i + 1)) == split_parts(s.take(i)).push(Seq::empty()),
        s[i] != '.' ==> split_parts(s.take(i + 1)) == split_parts(s.take(i)).update(
            split_parts(s.take(i)).len() - 1,
            split_parts(s.take(i)).last().push(s[i]),
        ),
{
    lemma_split_parts_nonempty(s.take(i));
    assert(s.take(i + 1).drop_last() =~= s.take(i));
}

proof fn lemma_decimal_push(p: Seq<char>, c: char)
    ensures
        decimal(p.push(c)) == decimal(p) * 10 + digit_value(c),
{
    assert(p.push(c).drop_last() =~= p);
}

/// A version string: three dot-separated decimal parts, each at most 255, not all zero.
///
/// Any string can be held; `validate` says whether it is a valid version.
#[derive(Debug)]
pub struct FileVersion(pub String);

impl View for FileVersion {
    type V = Seq<char>;

    open spec fn view(&self) -> Seq<char> {
        self.0@
    }
}

impl FileVersion {
    /// The genesis version, `0.1.0`.
    pub fn new() -> (v: FileVersion)
        ensures
            v@ == REGISTRY_VERSION_GENESIS@,
    {
        FileVersion(String::from_str(REGISTRY_VERSION_GENESIS))
    }

    pub fn as_str(&self) -> (r: &str)
        ensures
            r@ == self@,
    {
        self.0.as_str()
    }

    pub fn to_string(&self) -> (r: String)
        ensures
            r@ == self@,
    {
        self.0.clone()
    }

    /// The first rule this version breaks, if any.
    pub fn check(&self) -> (r: Option<VersionFault>)
        ensures
            r == version_fault(self@),
    {
        let s = self.0.as_str();
        let n = s.unicode_len();
        if n == 0 {
            return Some(VersionFault::Empty);
        }
        let mut i: usize = 0;
        while i < n
            invariant
                n == s@.len(),
                s@ == self@,
                i <= n,
                forall|k: int| 0 <= k < i ==> is_version_char(#[trigger] s@[k]),
            decreases n - i,
        {
            let c = s.get_char(i);
            if !(('0' <= c && c <= '9') || c == '.') {
                return Some(VersionFault::ForeignChar);
            }
            i = i + 1;
        }
        let ghost all = s@;
        let mut done: Vec<u64> = Vec::new();
        let mut cur: u64 = 0;
        let mut cur_len: usize = 0;
        let mut empty_seen = false;
        i = 0;
        proof {
            assert(all.take(0) =~= Seq::<char>::empty());
        }
        while i < n
            invariant
                n == all.len(),
                s@ == all,
                all == self@,
                i <= n,
                forall|k: int| 0 <= k < n ==> is_version_char(#[trigger] all[k]),
                split_parts(all.take(i as int)).len() == done@.len() + 1,
                forall|k: int|
                    0 <= k < done@.len() ==> #[trigger] done@[k] == capped(
                        decimal(split_parts(all.take(i as int))[k]),
                    ),
                cur == capped(decimal(split_parts(all.take(i as int)).last())),
                cur_len == split_parts(all.take(i as int)).last().len(),
                cur_len <= i,
                empty_seen <==> exists|k: int|
                    0 <= k < done@.len() && (#[trigger] split_parts(all.take(i as int))[k]).len()
                        == 0,
            decreases n - i,
        {
            let c = s.get_char(i);
            proof {
                lemma_split_parts_step(all, i as int);
            }
            let ghost before = split_parts(all.take(i as int));
            let ghost after = split_parts(all.take(i as int + 1));
            if c == '.' {
                if cur_len == 0 {
                    empty_seen = true;
                }
                done.push(cur);
                cur = 0;
                cur_len = 0;
                proof {
                    assert(after == before.push(Seq::empty()));
                    assert forall|k: int| 0 <= k < done@.len() implies #[trigger] done@[k] == capped(
                        decimal(after[k]),
                    ) by {
                        if k < done@.len() - 1 {
                            assert(after[k] == before[k]);
                        }
                    }
                    if empty_seen {
                        if cur_len == 0 && before.last().len() == 0 {
                            assert(after[done@.len() - 1].len() == 0);
                        } else {
                            let k = choose|k: int|
                                0 <= k < done@.len() - 1 && (#[trigger] before[k]).len() == 0;
                            assert(after[k] == before[k]);
                        }
                    }
                    if exists|k: int| 0 <= k < done@.len() && (#[trigger] after[k]).len() == 0 {
                        let k = choose|k: int| 0 <= k < done@.len() && (#[trigger] after[k]).len() == 0;
                        if k < done@.len() - 1 {
                            assert(after[k] == before[k]);
                        }
                    }
                    assert(decimal(Seq::<char>::empty()) == 0);
                }
            } else {
                let d = (c as u64) - ('0' as u64);
                proof {
                    lemma_decimal_push(before.last(), c);
                }
                if cur >= PART_CAP {
                } else if cur * 10 + d >= PART_CAP {
                    cur = PART_CAP;
                } else {
                    cur = cur * 10 + d;
                }
                cur_len = cur_len + 1;
                proof {
                    assert(after == before.update(before.len() - 1, before.last().push(c)));
                    assert(after.last() == before.last().push(c));
                    assert forall|k: int| 0 <= k < done@.len() implies #[trigger] done@[k] == capped(
                        decimal(after[k]),
                    ) by {
                        assert(after[k] == before[k]);
                    }
                    if empty_seen {
                        let k = choose|k: int| 0 <= k < done@.len() && (#[trigger] before[k]).len() == 0;
                        assert(after[k] == before[k]);
                    }
                    if exists|k: int| 0 <= k < done@.len() && (#[trigger] after[k]).len() == 0 {
                        let k = choose|k: int| 0 <= k < done@.len() && (#[trigger] after[k]).len() == 0;
                        assert(after[k] == before[k]);
                    }
                }
            }
            i = i + 1;
        }
        proof {
            assert(all.take(n as int) =~= all);
        }
        let ghost ps = split_parts(all);
        if empty_seen || cur_len == 0 {
            proof {
                if cur_len == 0 {
                    assert(ps[ps.len() - 1].len() == 0);
                }
            }
            return Some(VersionFault::EmptyPart);
        }
        if done.len() != 2 {
            return Some(VersionFault::PartCount);
        }
        let a = done[0];
        let b = done[1];
        proof {
            assert(ps[2] == ps.last());
        }
        if a >= PART_CAP || b >= PART_CAP || cur >= PART_CAP {
            proof {
                if a >= PART_CAP {
                    assert(decimal(ps[0]) >= PART_CAP);
                } else if b >= PART_CAP {
                    assert(decimal(ps[1]) >= PART_CAP);
                } else {
                    assert(decimal(ps[2]) >= PART_CAP);
                }
            }
            return Some(VersionFault::NotUnsigned);
        }
        if a == 0 && b == 0 && cur == 0 {
            return Some(VersionFault::Zero);
        }
        if a > PART_MAX || b > PART_MAX || cur > PART_MAX {
            proof {
                if a > PART_MAX {
                    assert(decimal(ps[0]) > PART_MAX);
                } else if b > PART_MAX {
                    assert(decimal(ps[1]) > PART_MAX);
                } else {
                    assert(decimal(ps[2]) > PART_MAX);
                }
            }
            return Some(VersionFault::OutOfRange);
        }
        None
    }
}

impl Validator for FileVersion {
    open spec fn fault(&self) -> Option<Seq<char>> {
        version_fault_message(self@)
    }

    fn validate(&self) -> (r: Result<(), CoreError>) {
        match self.check() {
            None => Ok(()),
            Some(f) => Err(CoreError::validation(f.message())),
        }
    }
}

} // verus!

verus! {

impl From<String> for FileVersion {
    fn from(version: String) -> (r: FileVersion)
        ensures
            r@ == version@,
    {
        FileVersion(version)
    }
}

impl vstd::std_specs::convert::FromSpecImpl<String> for FileVersion {
    open spec fn obeys_from_spec() -> bool {
        true
    }

    open spec fn from_spec(v: String) -> FileVersion {
        FileVersion(v)
    }
}

impl<'a> From<&'a str> for FileVersion {
    fn from(version: &'a str) -> (r: FileVersion)
        ensures
            r@ == version@,
    {
        FileVersion(String::from_str(version))
    }
}

impl<'a> vstd::std_specs::convert::FromSpecImpl<&'a str> for FileVersion {
    open spec fn obeys_from_spec() -> bool {
        false
    }

    open spec fn from_spec(v: &'a str) -> FileVersion {
        arbitrary()
    }
}

impl Clone for FileVersion {
    fn clone(&self) -> (r: FileVersion)
        ensures
            r == *self,
    {
        FileVersion(self.0.clone())
    }
}

impl PartialEq for FileVersion {
    fn eq(&self, other: &FileVersion) -> (r: bool)
        ensures
            r == (self@ == other@),
    {
        self.0 == other.0
    }
}

impl vstd::std_specs::cmp::PartialEqSpecImpl for FileVersion {
    open spec fn obeys_eq_spec() -> bool {
        true
    }

    open spec fn eq_spec(&self, other: &FileVersion) -> bool {
        self@ == other@
    }
}

} // verus!

verus! {

/// The genesis version breaks no version rule.
pub proof fn lemma_genesis_valid()
    ensures
        version_fault(REGISTRY_VERSION_GENESIS@) is None,
{
    reveal_strlit("0.1.0");
    let s = REGISTRY_VERSION_GENESIS@;
    assert(s =~= seq!['0', '.', '1', '.', '0']);
    assert(s.drop_last() =~= seq!['0', '.', '1', '.']);
    assert(s.drop_last().drop_last() =~= seq!['0', '.', '1']);
    assert(s.drop_last().drop_last().drop_last() =~= seq!['0', '.']);
    assert(s.drop_last().drop_last().drop_last().drop_last() =~= seq!['0']);
    assert(seq!['0'].drop_last() =~= Seq::<char>::empty());
    let zero = split_parts(seq!['0']);
    assert(zero =~= seq![seq!['0']]) by {
        assert(split_parts(Seq::<char>::empty()) == seq![Seq::<char>::empty()]);
        assert(Seq::<char>::empty().push('0') =~= seq!['0']);
    }
    let zero_dot = split_parts(seq!['0', '.']);
    assert(zero_dot =~= seq![seq!['0'], Seq::<char>::empty()]);
    let zero_dot_one = split_parts(seq!['0', '.', '1']);
    assert(zero_dot_one =~= seq![seq!['0'], seq!['1']]) by {
        assert(Seq::<char>::empty().push('1') =~= seq!['1']);
    }
    let zero_dot_one_dot = split_parts(seq!['0', '.', '1', '.']);
    assert(zero_dot_one_dot =~= seq![seq!['0'], seq!['1'], Seq::<char>::empty()]);
    let ps = split_parts(s);
    assert(ps =~= seq![seq!['0'], seq!['1'], seq!['0']]) by {
        assert(Seq::<char>::empty().push('0') =~= seq!['0']);
    }
    assert(seq!['1'].drop_last() =~= Seq::<char>::empty());
    assert(seq!['0'].last() == '0' && seq!['1'].last() == '1');
    assert(decimal(Seq::<char>::empty()) == 0);
    assert(decimal(seq!['0']) == 0);
    assert(decimal(seq!['1']) == 1);
}

/// A version string is accepted exactly when it is not empty, holds only digits and
/// dots, splits at its dots into three non-empty parts, has each part at most 255,
/// and does not have all three parts zero.
pub proof fn lemma_version_rules(s: Seq<char>)
    ensures
        version_fault(s) is None <==> {
            let ps = split_parts(s);
            &&& s.len() > 0
            &&& forall|i: int| 0 <= i < s.len() ==> is_version_char(#[trigger] s[i])
            &&& ps.len() == 3
            &&& forall|j: int| 0 <= j < 3 ==> (#[trigger] ps[j]).len() > 0
            &&& forall|j: int| 0 <= j < 3 ==> decimal(#[trigger] ps[j]) <= PART_MAX
            &&& !(decimal(ps[0]) == 0 && decimal(ps[1]) == 0 && decimal(ps[2]) == 0)
        },
{
    let ps = split_parts(s);
    if version_fault(s) is None {
        assert forall|j: int| 0 <= j < 3 implies decimal(#[trigger] ps[j]) <= PART_MAX by {
            if decimal(ps[j]) > PART_MAX {
                if decimal(ps[j]) >= PART_CAP {
                    assert(exists|j: int| 0 <= j < 3 && decimal(#[trigger] ps[j]) >= PART_CAP);
                }
            }
        }
    } else {
        if s.len() > 0 && (forall|i: int| 0 <= i < s.len() ==> is_version_char(#[trigger] s[i]))
            && ps.len() == 3 && (forall|j: int| 0 <= j < 3 ==> (#[trigger] ps[j]).len() > 0)
            && (forall|j: int| 0 <= j < 3 ==> decimal(#[trigger] ps[j]) <= PART_MAX) {
            assert(!(exists|j: int| 0 <= j < ps.len() && (#[trigger] ps[j]).len() == 0));
            assert(!(exists|j: int| 0 <= j < 3 && decimal(#[trigger] ps[j]) >= PART_CAP));
            assert(!(exists|j: int| 0 <= j < 3 && decimal(#[trigger] ps[j]) > PART_MAX));
        }
    }
}

} // verus!
