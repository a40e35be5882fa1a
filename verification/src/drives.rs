//! Decoding the logical-drive bitmask into a set of drive letters.
//!
//! The operating system reports the mounted logical drives as a 32-bit
//! bitmask: bit `i` (counted from the least-significant end) set means drive
//! letter `'A' + i` is present. Only bits 0..=25 correspond to letters; a
//! mask with any of the top six bits set is malformed. A raw result of zero
//! signals that the query itself failed, with the cause available through
//! the platform's last-error code.

use vstd::prelude::*;
use vstd::string::StrSliceExecFns;
use vstd::string::StringExecFns;

verus! {

/// Bits 26..=31 of a drive bitmask never correspond to a drive letter.
pub const INVALID_DRIVE_LETTER_BITMASK: u32 = 0xFC00_0000;

/// Whether bit `i` of `mask` is set.
pub open spec fn bit_set(mask: u32, i: u32) -> bool {
    mask & (1u32 << i) != 0
}

/// The drive letter for bit position `i`: `'A'` for 0 up to `'Z'` for 25.
pub open spec fn letter_of(i: u32) -> char
    recommends
        i < 26,
{
    ((65 + i) as u8) as char
}

/// The set of drive letters a well-formed bitmask encodes.
pub open spec fn drives_of_mask(mask: u32) -> Set<char> {
    Set::new(|c: char| exists|i: u32| i < 26 && #[trigger] bit_set(mask, i) && c == letter_of(i))
}

/// The display label for drive letter `c`: the letter, a colon, a slash.
pub open spec fn label_of(c: char) -> Seq<char> {
    seq![c, ':', '/']
}

/// The character for decimal digit `d`.
pub open spec fn digit_char(d: nat) -> char
    recommends
        d < 10,
{
    ((48 + d) as u8) as char
}

/// The decimal digits of `n`, most significant first, with no leading
/// zeros (zero itself is the single digit `'0'`).
pub open spec fn dec_digits(n: nat) -> Seq<char>
    decreases n,
{
    if n < 10 {
        seq![digit_char(n)]
    } else {
        dec_digits(n / 10).push(digit_char(n % 10))
    }
}

/// Why a drive enumeration failed: the bitmask had bits outside the 26
/// letter positions set, or the operating-system query itself reported
/// failure, carrying the platform error code.
#[derive(Clone, Copy, Debug, PartialEq, Eq, Structural)]
pub enum GetLogicalDrivesError {
    TooManyDrivesError,
    ApiError(u32),
}

/// The text a diagnostic prints for the error: the bare variant name for
/// a malformed bitmask, or `ApiError` followed by the decimal error code.
pub open spec fn message_of(e: GetLogicalDrivesError) -> Seq<char> {
    match e {
        GetLogicalDrivesError::TooManyDrivesError => "TooManyDrive"@,
        GetLogicalDrivesError::ApiError(code) => "ApiError"@ + dec_digits(code as nat),
    }
}

impl GetLogicalDrivesError {
    /// Render the error as the text its diagnostics print.
    pub fn message(&self) -> (s: String)
        ensures
            s@ == message_of(*self),
    {
        match self {
            GetLogicalDrivesError::TooManyDrivesError => String::from_str("TooManyDrive"),
            GetLogicalDrivesError::ApiError(code) => {
                let mut s = String::from_str("ApiError");
                let digits = u32_decimal(*code);
                s.append(digits.as_str());
                s
            },
        }
    }
}

/// The string slice holding just decimal digit `d`.
fn digit_str(d: u32) -> (s: &'static str)
    requires
        d < 10,
    ensures
        s@ == seq![digit_char(d as nat)],
{
    let digits: &'static str = "0123456789";
    proof {
        reveal_strlit("0123456789");
        assert(digits@[d as int] == digit_char(d as nat));
    }
    let s = digits.substring_ascii(d as usize, d as usize + 1);
    proof {
        assert(s@ =~= seq![digit_char(d as nat)]);
    }
    s
}

/// The digits `rev` (least significant first) read back most significant
/// first, as characters.
spec fn revd_of(rev: Seq<u32>) -> Seq<char> {
    Seq::new(rev.len(), |j: int| digit_char(rev[rev.len() - 1 - j] as nat))
}

/// Render `n` in decimal, most significant digit first, no leading zeros.
fn u32_decimal(n: u32) -> (s: String)
    ensures
        s@ == dec_digits(n as nat),
{
    let mut rev: Vec<u32> = Vec::new();
    rev.push(n % 10);
    let mut m: u32 = n / 10;
    proof {
        assert(revd_of(rev@) =~= seq![digit_char((n % 10) as nat)]);
        if m == 0 {
            assert(dec_digits(n as nat) == revd_of(rev@));
        }
    }
    while m > 0
        invariant
            rev@.len() >= 1,
            forall|k: int| 0 <= k < rev@.len() ==> #[trigger] rev@[k] < 10,
            m > 0 ==> dec_digits(n as nat) == dec_digits(m as nat) + revd_of(rev@),
            m == 0 ==> dec_digits(n as nat) == revd_of(rev@),
        decreases m,
    {
        let d = m % 10;
        let ghost prev = rev@;
        rev.push(d);
        let next = m / 10;
        proof {
            assert(revd_of(rev@) =~= seq![digit_char(d as nat)] + revd_of(prev));
            if m >= 10 {
                assert(dec_digits(m as nat) == dec_digits((m / 10) as nat).push(
                    digit_char((m % 10) as nat),
                ));
                assert(dec_digits((m / 10) as nat).push(digit_char(d as nat)) + revd_of(prev)
                    =~= dec_digits((m / 10) as nat) + (seq![digit_char(d as nat)] + revd_of(
                    prev,
                )));
            } else {
                assert(dec_digits(m as nat) == seq![digit_char(m as nat)]);
                assert(dec_digits(m as nat) + revd_of(prev) =~= seq![digit_char(d as nat)]
                    + revd_of(prev));
            }
        }
        m = next;
    }
    let mut s = String::from_str("");
    let ghost goal = dec_digits(n as nat);
    proof {
        reveal_strlit("");
        assert(goal == revd_of(rev@));
        assert(goal.len() == rev@.len());
    }
    let mut k: usize = rev.len();
    while k > 0
        invariant
            k <= rev@.len(),
            goal.len() == rev@.len(),
            forall|j: int| 0 <= j < rev@.len() ==> #[trigger] rev@[j] < 10,
            forall|j: int| 0 <= j < rev@.len() ==> #[trigger] goal[j] == digit_char(
                rev@[rev@.len() - 1 - j] as nat,
            ),
            s@ =~= goal.take(rev@.len() - k),
        decreases k,
    {
        k -= 1;
        s.append(digit_str(rev[k]));
        proof {
            assert(s@ =~= goal.take(rev@.len() - k));
        }
    }
    proof {
        assert(s@ =~= goal);
    }
    s
}

/// A set of mounted drive letters, stored in strictly increasing order.
pub struct DriveSet {
    letters: Vec<char>,
}

impl View for DriveSet {
    type V = Set<char>;

    open spec fn view(&self) -> Set<char> {
        Set::new(|c: char| self.seq().contains(c))
    }
}

impl DriveSet {
    /// The letters in their stored (strictly increasing) order.
    pub closed spec fn seq(&self) -> Seq<char> {
        self.letters@
    }

    /// Strictly increasing order (hence no duplicates), every member a
    /// letter in `'A'..='Z'`.
    pub open spec fn wf(&self) -> bool {
        &&& forall|k: int| 0 <= k < self.seq().len() ==> 65 <= #[trigger] self.seq()[k] as u32 <= 90
        &&& forall|k: int, l: int|
            #![trigger self.seq()[k], self.seq()[l]]
            0 <= k < l < self.seq().len() ==> (self.seq()[k] as u32) < (self.seq()[l] as u32)
    }

    /// How many drives are in the set.
    pub fn len(&self) -> (n: usize)
        ensures
            n == self.seq().len(),
    {
        self.letters.len()
    }

    /// The letter at position `k` of the increasing order.
    pub fn letter_at(&self, k: usize) -> (c: char)
        requires
            k < self.seq().len(),
        ensures
            c == self.seq()[k as int],
    {
        self.letters[k]
    }

    /// A well-formed drive set never holds the same letter twice, and
    /// every member is an uppercase letter.
    pub proof fn lemma_wf_no_duplicates(&self)
        requires
            self.wf(),
        ensures
            forall|k: int, l: int|
                #![trigger self.seq()[k], self.seq()[l]]
                0 <= k < l < self.seq().len() ==> self.seq()[k] != self.seq()[l],
            forall|c: char| self@.contains(c) ==> 65 <= (c as u32) <= 90,
    {
        assert forall|c: char| self@.contains(c) implies 65 <= (c as u32) <= 90 by {
            let k = choose|k: int| 0 <= k < self.seq().len() && self.seq()[k] == c;
            assert(65 <= (self.seq()[k] as u32) <= 90);
        }
    }

    /// Whether drive letter `c` is in the set.
    pub fn contains(&self, c: char) -> (present: bool)
        ensures
            present == self@.contains(c),
    {
        let n = self.letters.len();
        let mut k: usize = 0;
        while k < n
            invariant
                n == self.seq().len(),
                k <= n,
                forall|j: int| 0 <= j < k ==> self.seq()[j] != c,
            decreases n - k,
        {
            if self.letters[k] == c {
                return true;
            }
            k += 1;
        }
        false
    }
}

/// Decode the operating system's logical-drive query into the set of
/// mounted drive letters.
///
/// The two inputs are the raw readings the caller took from the platform:
/// the drive bitmask, and the last-error code fetched after it. A bitmask
/// of zero is how the platform signals that the query failed (never "no
/// drives"), so it yields `ApiError` with that code; a bitmask with any of
/// bits 26..=31 set has a shape no drive letter corresponds to and yields
/// `TooManyDrivesError`; otherwise the result is exactly the set of
/// letters whose bits are set, with no duplicates.
pub fn get_drives(bitmask: u32, last_error_code: u32) -> (r: Result<
    DriveSet,
    GetLogicalDrivesError,
>)
    ensures
        bitmask == 0 ==> (r matches Err(e) && e == GetLogicalDrivesError::ApiError(
            last_error_code,
        )),
        bitmask & INVALID_DRIVE_LETTER_BITMASK != 0 ==> (r matches Err(e) && e
            == GetLogicalDrivesError::TooManyDrivesError),
        bitmask != 0 && bitmask & INVALID_DRIVE_LETTER_BITMASK == 0 ==> (r matches Ok(ds)
            && ds.wf() && ds@ == drives_of_mask(bitmask)),
{
    if bitmask == 0 {
        proof {
            assert(bitmask & INVALID_DRIVE_LETTER_BITMASK == 0) by (bit_vector)
                requires
                    bitmask == 0,
            ;
        }
        return Err(GetLogicalDrivesError::ApiError(last_error_code));
    }
    if bitmask & INVALID_DRIVE_LETTER_BITMASK != 0 {
        return Err(GetLogicalDrivesError::TooManyDrivesError);
    }
    let mut letters: Vec<char> = Vec::new();
    let mut i: u32 = 0;
    while i < 26
        invariant
            i <= 26,
            forall|k: int|
                0 <= k < letters@.len() ==> 65 <= ((#[trigger] letters@[k]) as u32)
                    && ((letters@[k] as u32) < 65 + i),
            forall|k: int, l: int|
                #![trigger letters@[k], letters@[l]]
                0 <= k < l < letters@.len() ==> (letters@[k] as u32) < (letters@[l] as u32),
            forall|c: char|
                #[trigger] letters@.contains(c) <==> exists|j: u32|
                    j < i && #[trigger] bit_set(bitmask, j) && c == letter_of(j),
        decreases 26 - i,
    {
        if bitmask & (1u32 << i) != 0 {
            let c: char = (65 + i as u8) as char;
            let ghost prev = letters@;
            letters.push(c);
            proof {
                assert(c == letter_of(i));
                assert(bit_set(bitmask, i));
                assert forall|x: char| #[trigger] letters@.contains(x) implies exists|j: u32|
                    j < i + 1 && #[trigger] bit_set(bitmask, j) && x == letter_of(j) by {
                    let k = choose|k: int| 0 <= k < letters@.len() && letters@[k] == x;
                    if k < prev.len() {
                        assert(prev.contains(x));
                    } else {
                        assert(x == c);
                        assert(i < i + 1 && bit_set(bitmask, i) && x == letter_of(i));
                    }
                }
                assert forall|x: char|
                    exists|j: u32| j < i + 1 && #[trigger] bit_set(bitmask, j) && x == letter_of(
                        j,
                    ) implies #[trigger] letters@.contains(x) by {
                    let j = choose|j: u32|
                        j < i + 1 && #[trigger] bit_set(bitmask, j) && x == letter_of(j);
                    if j < i {
                        assert(prev.contains(x));
                        let k = choose|k: int| 0 <= k < prev.len() && prev[k] == x;
                        assert(letters@[k] == x);
                    } else {
                        assert(letters@[prev.len() as int] == c);
                    }
                }
            }
        } else {
            proof {
                assert(!bit_set(bitmask, i));
                assert forall|x: char|
                    exists|j: u32| j < i + 1 && #[trigger] bit_set(bitmask, j) && x == letter_of(
                        j,
                    ) implies #[trigger] letters@.contains(x) by {
                    let j = choose|j: u32|
                        j < i + 1 && #[trigger] bit_set(bitmask, j) && x == letter_of(j);
                    assert(j < i);
                }
            }
        }
        i += 1;
    }
    let ds = DriveSet { letters };
    proof {
        assert(ds@ =~= drives_of_mask(bitmask));
    }
    Ok(ds)
}

/// Format a drive letter as the label shown in the dropdown: `'C'`
/// becomes `"C:/"`.
pub fn format_drive_label(letter: char) -> (label: String)
    requires
        65 <= letter as u32 <= 90,
    ensures
        label@ == label_of(letter),
{
    let alphabet: &str = "ABCDEFGHIJKLMNOPQRSTUVWXYZ";
    proof {
        reveal_strlit("ABCDEFGHIJKLMNOPQRSTUVWXYZ");
        reveal_strlit(":/");
    }
    let idx: usize = (letter as u32 - 65) as usize;
    let letter_str = alphabet.substring_ascii(idx, idx + 1);
    proof {
        assert(alphabet@[idx as int] == letter);
        assert(letter_str@ =~= seq![letter]);
    }
    let mut label = String::from_str(letter_str);
    label.append(":/");
    proof {
        assert(label@ =~= label_of(letter));
    }
    label
}

} // verus!
