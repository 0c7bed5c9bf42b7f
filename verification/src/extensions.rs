//! The extension registry: parsing what the registry listing reports
//! for one identifier, and planning an enable/disable pass over the
//! fixed identifier set.
//!
//! The registry is queried per identifier by an OS tool whose listing
//! the caller captures and hands in as text.  An empty (all-blank)
//! listing means the identifier is not registered on this machine at
//! all: a third state distinct from enabled and disabled.  A non-empty
//! listing's leading marker character decides enabled (`+`) versus
//! disabled.

use vstd::prelude::*;
use vstd::string::*;

verus! {

/// The tri-state answer of one registry query.  `found == false` means
/// the identifier is absent from the registry; `enabled` is always
/// `false` in that case.
#[derive(Clone, Debug)]
pub struct ExtensionState {
    pub bundle_id: String,
    pub enabled: bool,
    pub found: bool,
}

/// The mathematical value of an `ExtensionState`.
#[verifier::ext_equal]
pub struct ExtensionStateView {
    pub bundle_id: Seq<char>,
    pub enabled: bool,
    pub found: bool,
}

impl View for ExtensionState {
    type V = ExtensionStateView;

    open spec fn view(&self) -> ExtensionStateView {
        ExtensionStateView { bundle_id: self.bundle_id@, enabled: self.enabled, found: self.found }
    }
}

/// The blank characters a registry listing may be padded with.
pub open spec fn spec_is_space(c: char) -> bool {
    c == ' ' || c == '\t' || c == '\n' || c == '\r'
}

/// Index of the first non-blank character, or the length if the whole
/// listing is blank.
pub open spec fn spec_first_non_space(s: Seq<char>) -> int
    decreases s.len(),
{
    if s.len() == 0 {
        0
    } else if !spec_is_space(s[0]) {
        0
    } else {
        1 + spec_first_non_space(s.subrange(1, s.len() as int))
    }
}

/// `spec_first_non_space` is the unique position with only blanks
/// before it and, when inside the sequence, a non-blank at it.
pub proof fn lemma_first_non_space_char(s: Seq<char>, i: int)
    requires
        0 <= i <= s.len(),
        forall|j: int| 0 <= j < i ==> spec_is_space(s[j]),
        i < s.len() ==> !spec_is_space(s[i]),
    ensures
        spec_first_non_space(s) == i,
    decreases i,
{
    if i == 0 {
    } else {
        let tail = s.subrange(1, s.len() as int);
        assert(spec_is_space(s[0]));
        assert(forall|j: int| 0 <= j < i - 1 ==> spec_is_space(tail[j]));
        assert(i - 1 < tail.len() ==> !spec_is_space(tail[i - 1]));
        lemma_first_non_space_char(tail, i - 1);
    }
}

/// What one registry listing for `id` denotes.
pub open spec fn spec_parse_extension_state(id: Seq<char>, listing: Seq<char>) -> ExtensionStateView {
    let i = spec_first_non_space(listing);
    if i == listing.len() {
        ExtensionStateView { bundle_id: id, enabled: false, found: false }
    } else {
        ExtensionStateView { bundle_id: id, enabled: listing[i] == '+', found: true }
    }
}

fn is_space(c: char) -> (r: bool)
    ensures
        r == spec_is_space(c),
{
    c == ' ' || c == '\t' || c == '\n' || c == '\r'
}

/// Parse the captured registry listing for one identifier into its
/// tri-state record.  An all-blank listing yields
/// `found == false, enabled == false`; otherwise the leading marker
/// character decides `enabled`.
pub fn get_extension_state(bundle_id: &str, listing: &str) -> (r: ExtensionState)
    ensures
        r@ == spec_parse_extension_state(bundle_id@, listing@),
        !r.found ==> !r.enabled,
{
    let n = listing.unicode_len();
    let mut i: usize = 0;
    while i < n && is_space(listing.get_char(i))
        invariant
            n == listing@.len(),
            0 <= i <= n,
            forall|j: int| 0 <= j < i ==> spec_is_space(listing@[j]),
        decreases n - i,
    {
        i += 1;
    }
    proof {
        lemma_first_non_space_char(listing@, i as int);
    }
    if i == n {
        ExtensionState { bundle_id: String::from_str(bundle_id), enabled: false, found: false }
    } else {
        let marker = listing.get_char(i);
        ExtensionState { bundle_id: String::from_str(bundle_id), enabled: marker == '+', found: true }
    }
}

/// The identifiers an enable/disable pass acts on: exactly those the
/// registry reports as found, in their query order.  Absent
/// identifiers are skipped, never acted on and never an error.
pub open spec fn spec_apply_targets(states: Seq<ExtensionStateView>) -> Seq<Seq<char>>
    decreases states.len(),
{
    if states.len() == 0 {
        Seq::empty()
    } else {
        let init = spec_apply_targets(states.drop_last());
        if states.last().found {
            init.push(states.last().bundle_id)
        } else {
            init
        }
    }
}

/// Every identifier an apply pass acts on comes from a record the
/// registry reported as found: absent extensions are never touched.
pub proof fn lemma_apply_targets_only_found(states: Seq<ExtensionStateView>, k: int)
    requires
        0 <= k < spec_apply_targets(states).len(),
    ensures
        exists|i: int|
            0 <= i < states.len() && (#[trigger] states[i]).found && states[i].bundle_id
                == spec_apply_targets(states)[k],
    decreases states.len(),
{
    let prefix = states.drop_last();
    let init = spec_apply_targets(prefix);
    if k < init.len() {
        lemma_apply_targets_only_found(prefix, k);
        assert(init[k] == spec_apply_targets(states)[k]);
        let i = choose|i: int|
            0 <= i < prefix.len() && (#[trigger] prefix[i]).found && prefix[i].bundle_id
                == spec_apply_targets(prefix)[k];
        assert(prefix[i] == states[i]);
        assert(0 <= i < states.len() && states[i].found && states[i].bundle_id
            == spec_apply_targets(states)[k]);
    } else {
        assert(states.last().found);
        assert(spec_apply_targets(states)[k] == states.last().bundle_id);
        let i = states.len() - 1;
        assert(states[i].found && states[i].bundle_id == spec_apply_targets(states)[k]);
    }
}

fn collect_apply_targets(states: &Vec<ExtensionState>) -> (r: Vec<String>)
    ensures
        r@.map_values(|s: String| s@) == spec_apply_targets(
            states@.map_values(|e: ExtensionState| e@),
        ),
{
    let ghost vs = states@.map_values(|e: ExtensionState| e@);
    let mut out: Vec<String> = Vec::new();
    let mut i: usize = 0;
    while i < states.len()
        invariant
            vs == states@.map_values(|e: ExtensionState| e@),
            0 <= i <= states@.len(),
            out@.map_values(|s: String| s@) == spec_apply_targets(vs.take(i as int)),
        decreases states@.len() - i,
    {
        proof {
            assert(vs.take(i + 1).drop_last() =~= vs.take(i as int));
            assert(vs.take(i + 1).last() == vs[i as int]);
        }
        if states[i].found {
            let name = states[i].bundle_id.clone();
            out.push(name);
            proof {
                assert(out@.map_values(|s: String| s@) =~= spec_apply_targets(vs.take(i + 1)));
            }
        } else {
            proof {
                assert(out@.map_values(|s: String| s@) =~= spec_apply_targets(vs.take(i + 1)));
            }
        }
        i += 1;
    }
    proof {
        assert(vs.take(states@.len() as int) =~= vs);
    }
    out
}

/// Plan a disable pass over the queried records: the identifiers to
/// issue a disable request for, exactly the found ones, in order.
pub fn disable_all_extensions(states: &Vec<ExtensionState>) -> (r: Vec<String>)
    ensures
        r@.map_values(|s: String| s@) == spec_apply_targets(
            states@.map_values(|e: ExtensionState| e@),
        ),
{
    collect_apply_targets(states)
}

/// Plan an enable pass over the queried records: the identifiers to
/// issue an enable request for.  The target set does not depend on the
/// direction, only the issued request does.
pub fn enable_all_extensions(states: &Vec<ExtensionState>) -> (r: Vec<String>)
    ensures
        r@.map_values(|s: String| s@) == spec_apply_targets(
            states@.map_values(|e: ExtensionState| e@),
        ),
{
    collect_apply_targets(states)
}

} // verus!
