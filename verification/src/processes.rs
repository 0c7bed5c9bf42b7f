//! The process monitor: parsing the process listing the OS enumerator
//! prints, partitioning it into the file-provider and cooperative
//! subsets, and the bounded poll-wait logic over successive listings.
//!
//! The enumerator prints one process per line, the numeric process id
//! first, a single space, then the process name.  Lines that do not
//! have that shape are skipped, and an empty listing means no process
//! matched: success, not an error.

use vstd::prelude::*;
use vstd::string::*;
use crate::errors::ToggleError;
use crate::text::{lemma_first_char_at, spec_first_char, spec_str_contains, str_contains};

verus! {

/// One enumerated process: ephemeral, produced fresh on every listing.
#[derive(Debug)]
pub struct DropboxProcess {
    pub pid: u32,
    pub name: String,
}

/// The mathematical value of a `DropboxProcess`.
#[verifier::ext_equal]
pub struct DropboxProcessView {
    pub pid: u32,
    pub name: Seq<char>,
}

impl View for DropboxProcess {
    type V = DropboxProcessView;

    open spec fn view(&self) -> DropboxProcessView {
        DropboxProcessView { pid: self.pid, name: self.name@ }
    }
}

impl DropboxProcess {
    /// Field-wise copy; the derived clone carries no specification.
    pub fn duplicate(&self) -> (r: DropboxProcess)
        ensures
            r@ == self@,
    {
        DropboxProcess { pid: self.pid, name: self.name.clone() }
    }
}

pub open spec fn spec_is_digit(c: char) -> bool {
    48 <= c as u32 <= 57
}

pub open spec fn spec_digit_val(c: char) -> int {
    c as u32 - 48
}

/// A non-empty, all-digit sequence: the shape a process id field must
/// have.
pub open spec fn spec_is_digits(s: Seq<char>) -> bool {
    s.len() > 0 && forall|i: int| 0 <= i < s.len() ==> spec_is_digit(s[i])
}

/// The number an all-digit sequence denotes, most significant digit
/// first.
pub open spec fn spec_digits_val(s: Seq<char>) -> int
    decreases s.len(),
{
    if s.len() == 0 {
        0
    } else {
        10 * spec_digits_val(s.drop_last()) + spec_digit_val(s.last())
    }
}

pub proof fn lemma_digits_val_nonneg(s: Seq<char>)
    requires
        forall|i: int| 0 <= i < s.len() ==> spec_is_digit(s[i]),
    ensures
        spec_digits_val(s) >= 0,
    decreases s.len(),
{
    if s.len() > 0 {
        lemma_digits_val_nonneg(s.drop_last());
    }
}

/// Appending digits never shrinks the denoted number.
pub proof fn lemma_digits_val_extend(s: Seq<char>, j: int)
    requires
        forall|i: int| 0 <= i < s.len() ==> spec_is_digit(s[i]),
        0 <= j <= s.len(),
    ensures
        spec_digits_val(s) >= spec_digits_val(s.take(j)),
    decreases s.len() - j,
{
    if j == s.len() {
        assert(s.take(j) =~= s);
    } else {
        let prefix = s.drop_last();
        lemma_digits_val_nonneg(prefix);
        lemma_digits_val_extend(prefix, j);
        assert(prefix.take(j) =~= s.take(j));
    }
}

/// What one listing line denotes: a record when the line is a digit
/// field, one space, and a name; nothing otherwise.
pub open spec fn spec_parse_line(l: Seq<char>) -> Option<DropboxProcessView> {
    let sp = spec_first_char(l, ' ');
    if sp == l.len() {
        None
    } else {
        let pid_s = l.take(sp);
        let name = l.subrange(sp + 1, l.len() as int);
        if spec_is_digits(pid_s) && spec_digits_val(pid_s) <= u32::MAX {
            Some(DropboxProcessView { pid: spec_digits_val(pid_s) as u32, name })
        } else {
            None
        }
    }
}

pub open spec fn spec_line_records(o: Option<DropboxProcessView>) -> Seq<DropboxProcessView> {
    match o {
        Some(p) => seq![p],
        None => Seq::empty(),
    }
}

/// The records denoted by the rest of a listing, with `cur` the part
/// of the current line already read.
pub open spec fn spec_parse_pending(s: Seq<char>, cur: Seq<char>) -> Seq<DropboxProcessView>
    decreases s.len(),
{
    if s.len() == 0 {
        spec_line_records(spec_parse_line(cur))
    } else if s[0] == '\n' {
        spec_line_records(spec_parse_line(cur)) + spec_parse_pending(
            s.subrange(1, s.len() as int),
            Seq::empty(),
        )
    } else {
        spec_parse_pending(s.subrange(1, s.len() as int), cur.push(s[0]))
    }
}

/// The records a whole listing denotes.
pub open spec fn spec_parse_listing(s: Seq<char>) -> Seq<DropboxProcessView> {
    spec_parse_pending(s, Seq::empty())
}

pub open spec fn spec_opt_view(r: Option<DropboxProcess>) -> Option<DropboxProcessView> {
    match r {
        Some(p) => Some(p@),
        None => None,
    }
}

/// Parse one listing line.
fn parse_line(l: &str) -> (r: Option<DropboxProcess>)
    ensures
        spec_opt_view(r) == spec_parse_line(l@),
{
    let n = l.unicode_len();
    let mut sp: usize = 0;
    while sp < n && l.get_char(sp) != ' '
        invariant
            n == l@.len(),
            0 <= sp <= n,
            forall|j: int| 0 <= j < sp ==> l@[j] != ' ',
        decreases n - sp,
    {
        sp += 1;
    }
    proof {
        lemma_first_char_at(l@, ' ', sp as int);
    }
    if sp == n {
        return None;
    }
    let ghost pid_s = l@.take(sp as int);
    if sp == 0 {
        proof {
            assert(!spec_is_digits(pid_s));
        }
        return None;
    }
    let mut val: u64 = 0;
    let mut k: usize = 0;
    proof {
        assert(pid_s.take(0) =~= Seq::<char>::empty());
    }
    while k < sp
        invariant
            0 < sp < n,
            n == l@.len(),
            sp as int == spec_first_char(l@, ' '),
            0 <= k <= sp,
            pid_s == l@.take(sp as int),
            forall|j: int| 0 <= j < k ==> spec_is_digit(pid_s[j]),
            val == spec_digits_val(pid_s.take(k as int)),
            val <= u32::MAX,
        decreases sp - k,
    {
        let c = l.get_char(k);
        proof {
            assert(pid_s[k as int] == l@[k as int]);
        }
        let cv = c as u32;
        if cv < 48 || cv > 57 {
            proof {
                assert(!spec_is_digit(pid_s[k as int]));
                assert(!spec_is_digits(pid_s));
            }
            return None;
        }
        let d: u64 = (cv - 48) as u64;
        proof {
            assert(pid_s.take(k + 1).drop_last() =~= pid_s.take(k as int));
            assert(pid_s.take(k + 1).last() == pid_s[k as int]);
        }
        let newval: u64 = val * 10 + d;
        if newval > (u32::MAX as u64) {
            proof {
                if spec_is_digits(pid_s) && spec_digits_val(pid_s) <= u32::MAX {
                    lemma_digits_val_extend(pid_s, k + 1);
                }
            }
            return None;
        }
        val = newval;
        k += 1;
    }
    proof {
        assert(pid_s.take(sp as int) =~= pid_s);
        assert(spec_is_digits(pid_s));
    }
    let name_str = l.substring_char(sp + 1, n);
    Some(DropboxProcess { pid: val as u32, name: String::from_str(name_str) })
}

/// Parse a whole captured listing into the process records it denotes,
/// in listing order.  An empty or blank listing yields no records.
pub fn list_dropbox_processes(listing: &str) -> (r: Vec<DropboxProcess>)
    ensures
        r@.map_values(|p: DropboxProcess| p@) == spec_parse_listing(listing@),
{
    let n = listing.unicode_len();
    let mut out: Vec<DropboxProcess> = Vec::new();
    let mut start: usize = 0;
    let mut i: usize = 0;
    proof {
        assert(listing@.subrange(0, n as int) =~= listing@);
        assert(listing@.subrange(0, 0) =~= Seq::<char>::empty());
        assert(out@.map_values(|p: DropboxProcess| p@) + spec_parse_listing(listing@)
            =~= spec_parse_listing(listing@));
    }
    while i < n
        invariant
            n == listing@.len(),
            0 <= start <= i <= n,
            out@.map_values(|p: DropboxProcess| p@) + spec_parse_pending(
                listing@.subrange(i as int, n as int),
                listing@.subrange(start as int, i as int),
            ) == spec_parse_listing(listing@),
        decreases n - i,
    {
        let c = listing.get_char(i);
        let ghost rest = listing@.subrange(i as int, n as int);
        let ghost cur = listing@.subrange(start as int, i as int);
        if c == '\n' {
            let line = listing.substring_char(start, i);
            proof {
                assert(rest[0] == '\n');
                assert(rest.subrange(1, rest.len() as int) =~= listing@.subrange(
                    i + 1,
                    n as int,
                ));
                assert(listing@.subrange(i + 1, i + 1) =~= Seq::<char>::empty());
            }
            let ghost out0 = out@;
            match parse_line(line) {
                Some(p) => {
                    out.push(p);
                    proof {
                        assert(out@.map_values(|q: DropboxProcess| q@) =~= out0.map_values(
                            |q: DropboxProcess| q@,
                        ) + spec_line_records(spec_parse_line(cur)));
                    }
                },
                None => {},
            }
            start = i + 1;
        } else {
            proof {
                assert(rest[0] == c && c != '\n');
                assert(rest.subrange(1, rest.len() as int) =~= listing@.subrange(
                    i + 1,
                    n as int,
                ));
                assert(cur.push(c) =~= listing@.subrange(start as int, i + 1));
            }
        }
        i += 1;
    }
    let line = listing.substring_char(start, n);
    proof {
        assert(listing@.subrange(n as int, n as int) =~= Seq::<char>::empty());
    }
    let ghost out0 = out@;
    match parse_line(line) {
        Some(p) => {
            out.push(p);
            proof {
                assert(out@.map_values(|q: DropboxProcess| q@) =~= out0.map_values(
                    |q: DropboxProcess| q@,
                ) + spec_line_records(spec_parse_line(listing@.subrange(start as int, n as int))));
            }
        },
        None => {},
    }
    proof {
        assert(out@.map_values(|q: DropboxProcess| q@) =~= out0.map_values(|q: DropboxProcess| q@)
            + spec_line_records(spec_parse_line(listing@.subrange(start as int, n as int))));
    }
    out
}

/// The name pattern that identifies the file-provider extension host,
/// the one process category observed to never exit on a cooperative
/// quit.
pub open spec fn spec_fileprovider_pattern() -> Seq<char> {
    "DropboxFileProvider"@
}

pub open spec fn spec_is_fileprovider(p: DropboxProcessView) -> bool {
    spec_str_contains(p.name, spec_fileprovider_pattern())
}

/// Whether a record belongs to the file-provider subset.
pub fn is_fileprovider_process(p: &DropboxProcess) -> (r: bool)
    ensures
        r == spec_is_fileprovider(p@),
{
    str_contains(p.name.as_str(), "DropboxFileProvider")
}

/// One listing, partitioned: all records, the file-provider subset,
/// and its complement, each in listing order.
pub struct ProcessPartition {
    pub all: Vec<DropboxProcess>,
    pub fileprovider: Vec<DropboxProcess>,
    pub non_fileprovider: Vec<DropboxProcess>,
}

/// Parse a listing and partition the records by the file-provider
/// pattern.
pub fn list_all_dropbox_processes(listing: &str) -> (r: ProcessPartition)
    ensures
        r.all@.map_values(|p: DropboxProcess| p@) == spec_parse_listing(listing@),
        r.fileprovider@.map_values(|p: DropboxProcess| p@) == spec_parse_listing(
            listing@,
        ).filter(|p: DropboxProcessView| spec_is_fileprovider(p)),
        r.non_fileprovider@.map_values(|p: DropboxProcess| p@) == spec_parse_listing(
            listing@,
        ).filter(|p: DropboxProcessView| !spec_is_fileprovider(p)),
{
    let all = list_dropbox_processes(listing);
    let ghost vs = spec_parse_listing(listing@);
    let mut fileprovider: Vec<DropboxProcess> = Vec::new();
    let mut non_fileprovider: Vec<DropboxProcess> = Vec::new();
    let mut i: usize = 0;
    proof {
        assert(vs.take(0) =~= Seq::<DropboxProcessView>::empty());
        reveal(Seq::filter);
    }
    while i < all.len()
        invariant
            all@.map_values(|p: DropboxProcess| p@) == vs,
            0 <= i <= all@.len(),
            fileprovider@.map_values(|p: DropboxProcess| p@) == vs.take(i as int).filter(
                |p: DropboxProcessView| spec_is_fileprovider(p),
            ),
            non_fileprovider@.map_values(|p: DropboxProcess| p@) == vs.take(i as int).filter(
                |p: DropboxProcessView| !spec_is_fileprovider(p),
            ),
        decreases all@.len() - i,
    {
        proof {
            reveal(Seq::filter);
            assert(vs.take(i + 1).drop_last() =~= vs.take(i as int));
            assert(vs.take(i + 1).last() == vs[i as int]);
            assert(all@[i as int]@ == vs[i as int]);
        }
        let p = all[i].duplicate();
        let ghost fp0 = fileprovider@;
        let ghost nfp0 = non_fileprovider@;
        if is_fileprovider_process(&p) {
            fileprovider.push(p);
            proof {
                assert(fileprovider@.map_values(|q: DropboxProcess| q@) =~= fp0.map_values(
                    |q: DropboxProcess| q@,
                ).push(vs[i as int]));
            }
        } else {
            non_fileprovider.push(p);
            proof {
                assert(non_fileprovider@.map_values(|q: DropboxProcess| q@) =~= nfp0.map_values(
                    |q: DropboxProcess| q@,
                ).push(vs[i as int]));
            }
        }
        i += 1;
    }
    proof {
        assert(vs.take(all@.len() as int) =~= vs);
    }
    ProcessPartition { all, fileprovider, non_fileprovider }
}

/// The subset a wait is about: the whole listing, or only the records
/// outside the file-provider subset.
pub open spec fn spec_selected(
    procs: Seq<DropboxProcessView>,
    exclude_fileprovider: bool,
) -> Seq<DropboxProcessView> {
    if exclude_fileprovider {
        procs.filter(|p: DropboxProcessView| !spec_is_fileprovider(p))
    } else {
        procs
    }
}

/// The records of the `i`-th observation.
pub open spec fn spec_obs(observations: Seq<Vec<DropboxProcess>>, i: int) -> Seq<
    DropboxProcessView,
> {
    observations[i]@.map_values(|p: DropboxProcess| p@)
}

/// Copy the selected subset of one observation, in order.
fn selected_procs(procs: &Vec<DropboxProcess>, exclude_fileprovider: bool) -> (r: Vec<
    DropboxProcess,
>)
    ensures
        r@.map_values(|p: DropboxProcess| p@) == spec_selected(
            procs@.map_values(|p: DropboxProcess| p@),
            exclude_fileprovider,
        ),
{
    let ghost vs = procs@.map_values(|p: DropboxProcess| p@);
    let mut out: Vec<DropboxProcess> = Vec::new();
    let mut i: usize = 0;
    proof {
        assert(vs.take(0) =~= Seq::<DropboxProcessView>::empty());
        reveal(Seq::filter);
    }
    while i < procs.len()
        invariant
            vs == procs@.map_values(|p: DropboxProcess| p@),
            0 <= i <= procs@.len(),
            out@.map_values(|p: DropboxProcess| p@) == spec_selected(
                vs.take(i as int),
                exclude_fileprovider,
            ),
        decreases procs@.len() - i,
    {
        proof {
            reveal(Seq::filter);
            assert(vs.take(i + 1).drop_last() =~= vs.take(i as int));
            assert(vs.take(i + 1).last() == vs[i as int]);
            assert(procs@[i as int]@ == vs[i as int]);
        }
        let p = procs[i].duplicate();
        let ghost out0 = out@;
        if !exclude_fileprovider || !is_fileprovider_process(&p) {
            out.push(p);
            proof {
                assert(out@.map_values(|q: DropboxProcess| q@) =~= out0.map_values(
                    |q: DropboxProcess| q@,
                ).push(vs[i as int]));
            }
        }
        i += 1;
    }
    proof {
        assert(vs.take(procs@.len() as int) =~= vs);
    }
    out
}

/// The names of the selected records of one observation, for a
/// timeout report.
fn selected_names(procs: &Vec<DropboxProcess>, exclude_fileprovider: bool) -> (r: Vec<String>)
    ensures
        r@.len() == spec_selected(
            procs@.map_values(|p: DropboxProcess| p@),
            exclude_fileprovider,
        ).len(),
        forall|j: int|
            0 <= j < r@.len() ==> r@[j]@ == spec_selected(
                procs@.map_values(|p: DropboxProcess| p@),
                exclude_fileprovider,
            )[j].name,
{
    let sel = selected_procs(procs, exclude_fileprovider);
    let ghost vsel = sel@.map_values(|p: DropboxProcess| p@);
    let mut out: Vec<String> = Vec::new();
    let mut i: usize = 0;
    while i < sel.len()
        invariant
            vsel == sel@.map_values(|p: DropboxProcess| p@),
            0 <= i <= sel@.len(),
            out@.len() == i,
            forall|j: int| 0 <= j < i ==> out@[j]@ == vsel[j].name,
        decreases sel@.len() - i,
    {
        out.push(sel[i].name.clone());
        proof {
            assert(vsel[i as int] == sel@[i as int]@);
            assert(out@[i as int]@ == vsel[i as int].name);
        }
        i += 1;
    }
    proof {
        assert(vsel == spec_selected(
            procs@.map_values(|p: DropboxProcess| p@),
            exclude_fileprovider,
        ));
        assert(vsel.len() == sel@.len());
    }
    out
}

/// The shared bounded wait: examine one observation per poll, succeed
/// on the first one whose selected subset is empty, and time out after
/// `max_polls` observations, naming the processes still running.
fn wait_for_exit(
    observations: &Vec<Vec<DropboxProcess>>,
    max_polls: usize,
    exclude_fileprovider: bool,
) -> (r: Result<usize, ToggleError>)
    requires
        1 <= max_polls,
        observations@.len() >= max_polls,
    ensures
        (exists|j: int|
            0 <= j < max_polls && spec_selected(spec_obs(observations@, j), exclude_fileprovider).len()
                == 0) <==> r is Ok,
        r matches Ok(k) ==> 1 <= k <= max_polls && spec_selected(
            spec_obs(observations@, k - 1),
            exclude_fileprovider,
        ).len() == 0 && forall|j: int|
            0 <= j < k - 1 ==> spec_selected(spec_obs(observations@, j), exclude_fileprovider).len()
                != 0,
        r matches Err(e) ==> e matches ToggleError::TimeoutError(names) && names@.len()
            == spec_selected(spec_obs(observations@, max_polls - 1), exclude_fileprovider).len()
            && forall|j: int|
            0 <= j < names@.len() ==> names@[j]@ == spec_selected(
                spec_obs(observations@, max_polls - 1),
                exclude_fileprovider,
            )[j].name,
{
    let mut attempt: usize = 0;
    while attempt < max_polls
        invariant
            1 <= max_polls,
            observations@.len() >= max_polls,
            0 <= attempt <= max_polls,
            forall|j: int|
                0 <= j < attempt ==> spec_selected(
                    spec_obs(observations@, j),
                    exclude_fileprovider,
                ).len() != 0,
        decreases max_polls - attempt,
    {
        let sel = selected_procs(&observations[attempt], exclude_fileprovider);
        if sel.len() == 0 {
            proof {
                assert(spec_selected(spec_obs(observations@, attempt as int), exclude_fileprovider).len()
                    == 0);
            }
            return Ok(attempt + 1);
        }
        attempt += 1;
    }
    let names = selected_names(&observations[max_polls - 1], exclude_fileprovider);
    Err(ToggleError::TimeoutError(names))
}

/// Wait for every enumerated process to be gone: one observation per
/// poll, timing out with the names still running.
pub fn wait_for_processes_to_die(observations: &Vec<Vec<DropboxProcess>>, max_polls: usize) -> (r:
    Result<usize, ToggleError>)
    requires
        1 <= max_polls,
        observations@.len() >= max_polls,
    ensures
        (exists|j: int| 0 <= j < max_polls && spec_obs(observations@, j).len() == 0) <==> r is Ok,
        r matches Ok(k) ==> 1 <= k <= max_polls && spec_obs(observations@, k - 1).len() == 0
            && forall|j: int| 0 <= j < k - 1 ==> spec_obs(observations@, j).len() != 0,
        r matches Err(e) ==> e matches ToggleError::TimeoutError(names) && names@.len()
            == spec_obs(observations@, max_polls - 1).len() && forall|j: int|
            0 <= j < names@.len() ==> names@[j]@ == spec_obs(observations@, max_polls - 1)[j].name,
{
    wait_for_exit(observations, max_polls, false)
}

/// Wait for every process outside the file-provider subset to be
/// gone.
pub fn wait_for_non_fileprovider_processes_to_die(
    observations: &Vec<Vec<DropboxProcess>>,
    max_polls: usize,
) -> (r: Result<usize, ToggleError>)
    requires
        1 <= max_polls,
        observations@.len() >= max_polls,
    ensures
        (exists|j: int|
            0 <= j < max_polls && spec_selected(spec_obs(observations@, j), true).len() == 0)
            <==> r is Ok,
        r matches Ok(k) ==> 1 <= k <= max_polls && spec_selected(
            spec_obs(observations@, k - 1),
            true,
        ).len() == 0 && forall|j: int|
            0 <= j < k - 1 ==> spec_selected(spec_obs(observations@, j), true).len() != 0,
        r matches Err(e) ==> e matches ToggleError::TimeoutError(names) && names@.len()
            == spec_selected(spec_obs(observations@, max_polls - 1), true).len() && forall|j: int|
            0 <= j < names@.len() ==> names@[j]@ == spec_selected(
                spec_obs(observations@, max_polls - 1),
                true,
            )[j].name,
{
    wait_for_exit(observations, max_polls, true)
}

/// Wait for at least one process of any kind to appear: the symmetric
/// bound used after a launch request.
pub fn wait_for_dropbox_to_start(observations: &Vec<Vec<DropboxProcess>>, max_polls: usize) -> (r:
    Result<usize, ToggleError>)
    requires
        1 <= max_polls,
        observations@.len() >= max_polls,
    ensures
        (exists|j: int| 0 <= j < max_polls && spec_obs(observations@, j).len() != 0) <==> r is Ok,
        r matches Ok(k) ==> 1 <= k <= max_polls && spec_obs(observations@, k - 1).len() != 0
            && forall|j: int| 0 <= j < k - 1 ==> spec_obs(observations@, j).len() == 0,
        r matches Err(e) ==> e matches ToggleError::TimeoutError(names) && names@.len() == 0,
{
    let mut attempt: usize = 0;
    while attempt < max_polls
        invariant
            1 <= max_polls,
            observations@.len() >= max_polls,
            0 <= attempt <= max_polls,
            forall|j: int| 0 <= j < attempt ==> spec_obs(observations@, j).len() == 0,
        decreases max_polls - attempt,
    {
        if observations[attempt].len() > 0 {
            proof {
                assert(spec_obs(observations@, attempt as int).len() != 0);
            }
            return Ok(attempt + 1);
        }
        attempt += 1;
    }
    Err(ToggleError::TimeoutError(Vec::new()))
}

} // verus!
