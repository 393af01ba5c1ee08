//! Device Enumerator: names of physical drives, the drive scan that stops at
//! the first drive that cannot be opened, and the steps of the volume scan.
use vstd::prelude::*;
use vstd::string::StringExecFns;

use crate::descriptor::{inspect_device, inspected, response_view, DeviceDescriptor};

verus! {

/// The character of a decimal digit.
pub open spec fn digit_char(d: nat) -> char {
    if d == 0 {
        '0'
    } else if d == 1 {
        '1'
    } else if d == 2 {
        '2'
    } else if d == 3 {
        '3'
    } else if d == 4 {
        '4'
    } else if d == 5 {
        '5'
    } else if d == 6 {
        '6'
    } else if d == 7 {
        '7'
    } else if d == 8 {
        '8'
    } else {
        '9'
    }
}

/// The decimal text of `n`, without leading zeros.
pub open spec fn decimal(n: nat) -> Seq<char>
    decreases n,
{
    if n < 10 {
        seq![digit_char(n)]
    } else {
        decimal(n / 10).push(digit_char(n % 10))
    }
}

/// The device namespace prefix of physical drive names.
pub open spec fn drive_prefix() -> Seq<char> {
    seq!['\\', '\\', '.', '\\', 'P', 'h', 'y', 's', 'i', 'c', 'a', 'l', 'D', 'r', 'i', 'v', 'e']
}

/// The name of the physical drive with index `i`.
pub open spec fn drive_path(i: nat) -> Seq<char> {
    drive_prefix() + decimal(i)
}

fn digit_text(d: u32) -> (r: &'static str)
    requires
        d < 10,
    ensures
        r@ == seq![digit_char(d as nat)],
{
    proof {
        reveal_strlit("0");
        reveal_strlit("1");
        reveal_strlit("2");
        reveal_strlit("3");
        reveal_strlit("4");
        reveal_strlit("5");
        reveal_strlit("6");
        reveal_strlit("7");
        reveal_strlit("8");
        reveal_strlit("9");
    }
    if d == 0 {
        "0"
    } else if d == 1 {
        "1"
    } else if d == 2 {
        "2"
    } else if d == 3 {
        "3"
    } else if d == 4 {
        "4"
    } else if d == 5 {
        "5"
    } else if d == 6 {
        "6"
    } else if d == 7 {
        "7"
    } else if d == 8 {
        "8"
    } else {
        "9"
    }
}

/// Appends the decimal text of `n` to `s`.
pub fn push_decimal(s: &mut String, n: u32)
    ensures
        final(s)@ == old(s)@ + decimal(n as nat),
    decreases n,
{
    if n >= 10 {
        push_decimal(s, n / 10);
    }
    let ghost mid = s@;
    s.append(digit_text(n % 10));
    assert(s@ =~= old(s)@ + decimal(n as nat)) by {
        if n >= 10 {
            assert(mid == old(s)@ + decimal((n / 10) as nat));
        }
    }
}

/// The name under which the physical drive with index `index` is opened.
pub fn physical_drive_path(index: u32) -> (r: String)
    ensures
        r@ == drive_path(index as nat),
{
    proof {
        reveal_strlit("\\\\.\\PhysicalDrive");
    }
    let mut s = String::from_str("\\\\.\\PhysicalDrive");
    assert(s@ =~= drive_prefix());
    push_decimal(&mut s, index);
    s
}

/// The scan of physical drives: drives are tried at indices 0, 1, 2, ...,
/// each opened drive is inspected, and the first drive that cannot be opened
/// ends the scan.
pub struct DriveScan {
    /// Index of the drive to try next (or, once finished, the one that failed).
    pub next_index: u32,
    pub finished: bool,
    /// Descriptors of the drives opened so far, in index order.
    pub drives: Vec<DeviceDescriptor>,
}

impl DriveScan {
    /// One descriptor for each index tried so far, the i-th naming drive i.
    pub open spec fn wf(&self) -> bool {
        &&& self.drives@.len() == self.next_index as nat
        &&& forall|i: int|
            0 <= i < self.drives@.len() ==> (#[trigger] self.drives@[i]).path@ == drive_path(
                i as nat,
            )
    }

    /// A scan that has tried nothing yet.
    pub fn new() -> (r: Self)
        ensures
            r.wf(),
            r.next_index == 0,
            !r.finished,
            r.drives@.len() == 0,
    {
        DriveScan { next_index: 0, finished: false, drives: Vec::new() }
    }

    /// The scan is over: a drive failed to open, or the last index that a
    /// 32-bit counter can name has been reached.
    pub open spec fn is_over(&self) -> bool {
        self.finished || self.next_index == u32::MAX
    }

    /// The name of the drive to open next, or `None` once the scan is over.
    pub fn next_candidate(&self) -> (r: Option<String>)
        ensures
            match r {
                Some(p) => !self.is_over() && p@ == drive_path(self.next_index as nat),
                None => self.is_over(),
            },
    {
        if self.finished || self.next_index == u32::MAX {
            None
        } else {
            Some(physical_drive_path(self.next_index))
        }
    }

    /// Records that the candidate drive opened, with the outcomes of its
    /// property and length requests; the scan moves on to the next index.
    pub fn record_opened(&mut self, property: &Result<Vec<u8>, u32>, length: &Result<Vec<u8>, u32>)
        requires
            old(self).wf(),
            !old(self).is_over(),
        ensures
            final(self).wf(),
            final(self).drives@.len() == old(self).drives@.len() + 1,
            final(self).drives@.subrange(0, old(self).drives@.len() as int) == old(self).drives@,
            inspected(
                final(self).drives@.last(),
                drive_path(old(self).next_index as nat),
                response_view(*property),
                response_view(*length),
            ),
            final(self).next_index == old(self).next_index + 1,
            !final(self).finished,
    {
        let path = physical_drive_path(self.next_index);
        let d = inspect_device(path, property, length);
        self.drives.push(d);
        self.next_index = self.next_index + 1;
        assert(self.drives@.subrange(0, old(self).drives@.len() as int) =~= old(self).drives@);
    }

    /// Records that the candidate drive could not be opened: the scan ends,
    /// whatever the reason of the failure.
    pub fn record_open_failed(&mut self)
        ensures
            final(self).finished,
            final(self).next_index == old(self).next_index,
            final(self).drives@ == old(self).drives@,
    {
        self.finished = true;
    }
}

proof fn lemma_decimal_nonempty(n: nat)
    ensures
        decimal(n).len() >= 1,
        n >= 10 ==> decimal(n).len() >= 2,
    decreases n,
{
    if n >= 10 {
        lemma_decimal_nonempty(n / 10);
    }
}

/// Different numbers have different decimal texts.
pub proof fn lemma_decimal_injective(a: nat, b: nat)
    requires
        decimal(a) == decimal(b),
    ensures
        a == b,
    decreases a,
{
    lemma_decimal_nonempty(a);
    lemma_decimal_nonempty(b);
    if a >= 10 && b >= 10 {
        let da = decimal(a / 10);
        let db = decimal(b / 10);
        assert(da == decimal(a).drop_last());
        assert(db == decimal(b).drop_last());
        lemma_decimal_injective(a / 10, b / 10);
        assert(decimal(a).last() == digit_char(a % 10));
        assert(decimal(b).last() == digit_char(b % 10));
        assert(a % 10 == b % 10);
    } else if a < 10 && b < 10 {
        assert(decimal(a)[0] == digit_char(a));
        assert(decimal(b)[0] == digit_char(b));
    }
}

/// Different indices name different drives.
pub proof fn lemma_drive_path_injective(i: nat, j: nat)
    requires
        drive_path(i) == drive_path(j),
    ensures
        i == j,
{
    let k = drive_prefix().len() as int;
    assert(decimal(i) =~= drive_path(i).subrange(k, drive_path(i).len() as int));
    assert(decimal(j) =~= drive_path(j).subrange(k, drive_path(j).len() as int));
    lemma_decimal_injective(i, j);
}

/// A scan that ended when drive `n` failed to open, after drives 0..n-1
/// opened, holds exactly `n` descriptors in index order: the i-th names
/// drive i, and no two name the same drive.
pub proof fn lemma_scan_in_index_order(s: DriveScan)
    requires
        s.wf(),
        s.finished,
    ensures
        s.drives@.len() == s.next_index as nat,
        forall|i: int| 0 <= i < s.drives@.len() ==> (#[trigger] s.drives@[i]).path@ == drive_path(i as nat),
        forall|i: int, j: int|
            0 <= i < j < s.drives@.len() ==> (#[trigger] s.drives@[i]).path@ != (#[trigger] s.drives@[j]).path@,
{
    assert forall|i: int, j: int| 0 <= i < j < s.drives@.len() implies s.drives@[i].path@ != s.drives@[j].path@ by {
        if s.drives@[i].path@ == s.drives@[j].path@ {
            lemma_drive_path_injective(i as nat, j as nat);
        }
    }
}

/// The platform error code that ends a volume scan: no more volumes.
pub const ERROR_NO_MORE_FILES: u32 = 18;

/// What a "find next volume" outcome means for the volume scan.
#[derive(Debug, Clone, Copy, PartialEq, Eq, Structural)]
pub enum VolumeStep {
    /// A further volume name was found.
    Next,
    /// There are no more volumes.
    End,
    /// The scan failed, with this platform error code.
    Fault(u32),
}

/// Tells the end of the volume scan apart from a genuine fault, by the
/// platform error code of a failed "find next volume" request.
pub fn classify_find_next(outcome: Result<(), u32>) -> (r: VolumeStep)
    ensures
        match outcome {
            Ok(()) => r == VolumeStep::Next,
            Err(code) => if code == ERROR_NO_MORE_FILES {
                r == VolumeStep::End
            } else {
                r == VolumeStep::Fault(code)
            },
        },
{
    match outcome {
        Ok(()) => VolumeStep::Next,
        Err(code) => if code == ERROR_NO_MORE_FILES {
            VolumeStep::End
        } else {
            VolumeStep::Fault(code)
        },
    }
}

/// `name` is the part of `buf` before its first zero unit (all of `buf`
/// when it holds none).
pub open spec fn is_name_in(name: Seq<u16>, buf: Seq<u16>) -> bool {
    &&& name.len() <= buf.len()
    &&& name == buf.subrange(0, name.len() as int)
    &&& forall|i: int| 0 <= i < name.len() ==> name[i] != 0
    &&& (name.len() == buf.len() || buf[name.len() as int] == 0)
}

/// The volume name held in a zero-terminated wide-character buffer.
pub fn volume_name(buf: &Vec<u16>) -> (r: Vec<u16>)
    ensures
        is_name_in(r@, buf@),
{
    let mut r: Vec<u16> = Vec::new();
    let n: usize = buf.len();
    let mut i: usize = 0;
    while i < n && buf[i] != 0
        invariant
            n == buf@.len(),
            i <= n,
            r@ == buf@.subrange(0, i as int),
            forall|k: int| 0 <= k < i ==> buf@[k] != 0,
        decreases n - i,
    {
        r.push(buf[i]);
        i = i + 1;
        assert(r@ =~= buf@.subrange(0, i as int));
    }
    r
}

} // verus!
