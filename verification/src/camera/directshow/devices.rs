//! How DirectShow cameras are listed.

use crate::camera::directshow::calls::{DirectShowCall, Fetch, FetchStatus};
use crate::camera::indexed;
use crate::camera::{CameraDevice, CameraError, CameraErrorView};
use crate::text;
use vstd::prelude::*;

verus! {

// ---------------------------------------------------------------------------
// Names
// ---------------------------------------------------------------------------

/// Whether a character is white space: those with the Unicode property `White_Space`.
pub open spec fn is_white_space(c: char) -> bool {
    ||| '\u{9}' <= c <= '\u{d}'
    ||| c == ' '
    ||| c == '\u{85}'
    ||| c == '\u{a0}'
    ||| c == '\u{1680}'
    ||| '\u{2000}' <= c <= '\u{200a}'
    ||| c == '\u{2028}'
    ||| c == '\u{2029}'
    ||| c == '\u{202f}'
    ||| c == '\u{205f}'
    ||| c == '\u{3000}'
}

/// Whether a text is empty but for white space.
pub open spec fn is_blank(s: Seq<char>) -> bool {
    forall|i: int| 0 <= i < s.len() ==> is_white_space(#[trigger] s[i])
}

/// What stands behind the last `c` of a text, or all of it where there is none.
pub open spec fn behind_last(s: Seq<char>, c: char) -> Seq<char> {
    match s.index_of_last(c) {
        Some(i) => s.skip(i + 1),
        None => s,
    }
}

/// Whether `middle` is `s` without the `c` at both of its ends.
pub open spec fn is_trimmed(s: Seq<char>, c: char, middle: Seq<char>) -> bool {
    exists|from: int, to: int| #[trigger] trims_to(s, c, from, to) && middle == s.subrange(from, to)
}

/// Whether `s[from..to]` is `s` without the `c` at both of its ends.
pub open spec fn trims_to(s: Seq<char>, c: char, from: int, to: int) -> bool {
    &&& 0 <= from <= to <= s.len()
    &&& forall|i: int| 0 <= i < from ==> #[trigger] s[i] == c
    &&& forall|i: int| to <= i < s.len() ==> #[trigger] s[i] == c
    &&& from < to ==> s[from] != c && s[to - 1] != c
}

fn white_space(c: char) -> (yes: bool)
    ensures
        yes == is_white_space(c),
{
    (c >= '\u{9}' && c <= '\u{d}') || c == ' ' || c == '\u{85}' || c == '\u{a0}' || c == '\u{1680}'
        || (c >= '\u{2000}' && c <= '\u{200a}') || c == '\u{2028}' || c == '\u{2029}' || c
        == '\u{202f}' || c == '\u{205f}' || c == '\u{3000}'
}

/// Whether a text is empty but for white space.
pub fn blank(s: &str) -> (yes: bool)
    ensures
        yes == is_blank(s@),
{
    let chars = text::chars_of(s);
    let mut i: usize = 0;
    while i < chars.len()
        invariant
            chars@ == s@,
            i <= chars@.len(),
            forall|j: int| 0 <= j < i ==> is_white_space(#[trigger] s@[j]),
        decreases chars@.len() - i,
    {
        if !white_space(chars[i]) {
            assert(!is_white_space(s@[i as int]));
            return false;
        }
        i += 1;
    }
    true
}

/// What stands behind the last `c` of a text.
pub fn text_behind_last(s: &str, c: char) -> (behind: String)
    ensures
        behind@ == behind_last(s@, c),
{
    let chars = text::chars_of(s);
    proof {
        s@.index_of_last_ensures(c);
    }
    let mut i: usize = chars.len();
    while i > 0
        invariant
            chars@ == s@,
            i <= chars@.len(),
            forall|j: int| i <= j < s@.len() ==> s@[j] != c,
            match s@.index_of_last(c) {
                Some(k) => 0 <= k < s@.len() && s@[k] == c,
                None => !s@.contains(c),
            },
            s@.index_of_last(c) matches Some(k) ==> forall|j: int|
                k < j < s@.len() ==> s@[j] != c,
        decreases i,
    {
        if chars[i - 1] == c {
            let behind = text::text_between(&chars, i, chars.len());
            assert(s@.contains(c)) by {
                assert(s@[i - 1] == c);
            }
            assert(behind@ =~= behind_last(s@, c));
            return behind;
        }
        i -= 1;
    }
    s.to_owned()
}

/// A text without the `c` at both of its ends.
pub fn trimmed(s: &str, c: char) -> (middle: String)
    ensures
        is_trimmed(s@, c, middle@),
{
    let chars = text::chars_of(s);
    let mut from: usize = 0;
    while from < chars.len() && chars[from] == c
        invariant
            chars@ == s@,
            from <= chars@.len(),
            forall|i: int| 0 <= i < from ==> #[trigger] s@[i] == c,
        decreases chars@.len() - from,
    {
        from += 1;
    }
    let mut to: usize = chars.len();
    while to > from && chars[to - 1] == c
        invariant
            chars@ == s@,
            from <= to <= chars@.len(),
            forall|i: int| to <= i < s@.len() ==> #[trigger] s@[i] == c,
        decreases to,
    {
        to -= 1;
    }
    let middle = text::text_between(&chars, from, to);
    assert(trims_to(s@, c, from as int, to as int));
    middle
}

/// Whether `name` is what the camera at `index` is called: its friendly name where it has one,
/// else the end of its display name, else its number.
pub open spec fn is_camera_name(
    index: nat,
    display: Option<Seq<char>>,
    friendly: Seq<char>,
    name: Seq<char>,
) -> bool {
    let display = match display {
        Some(display) => display,
        None => "dshow-device-"@ + text::decimal(index),
    };
    if !is_blank(friendly) {
        name == friendly
    } else if is_trimmed(behind_last(display, '!'), '\u{0}', Seq::empty()) {
        name == "DirectShow Camera "@ + text::decimal(index)
    } else {
        is_trimmed(behind_last(display, '!'), '\u{0}', name)
    }
}

/// A display name by its view.
pub open spec fn display_view(display: Option<String>) -> Option<Seq<char>> {
    match display {
        Some(display) => Some(display@),
        None => None,
    }
}

proof fn lemma_trimmed_is_unique(s: Seq<char>, c: char, a: Seq<char>, b: Seq<char>)
    requires
        is_trimmed(s, c, a),
        is_trimmed(s, c, b),
    ensures
        a == b,
{
    let (from, to) = choose|from: int, to: int|
        #[trigger] trims_to(s, c, from, to) && a == s.subrange(from, to);
    let (from2, to2) = choose|from: int, to: int|
        #[trigger] trims_to(s, c, from, to) && b == s.subrange(from, to);
    if from < to {
        assert(s[from] != c && s[to - 1] != c);
        assert(from2 <= from && to <= to2);
        assert(from2 < to2);
        assert(s[from2] != c && s[to2 - 1] != c);
        assert(from == from2 && to == to2);
    } else if from2 < to2 {
        assert(s[from2] == c);
    }
    assert(a =~= b);
}

/// What the camera at `index` is called.
pub fn camera_name(index: usize, display: Option<String>, friendly: String) -> (name: String)
    ensures
        is_camera_name(index as nat, display_view(display), friendly@, name@),
        name@.len() > 0,
{
    if !blank(friendly.as_str()) {
        return friendly;
    }
    let number = text::decimal_text(index as u64);
    let display = match display {
        Some(display) => display,
        None => text::joined("dshow-device-", number.as_str()),
    };
    let behind = text_behind_last(display.as_str(), '!');
    let cleaned = trimmed(behind.as_str(), '\u{0}');
    proof {
        reveal_strlit("");
        if is_trimmed(behind@, '\u{0}', Seq::empty()) {
            lemma_trimmed_is_unique(behind@, '\u{0}', Seq::empty(), cleaned@);
        }
        assert(cleaned@.len() == 0 ==> cleaned@ =~= ""@);
        assert(cleaned@.len() == 0 ==> cleaned@ =~= Seq::<char>::empty());
    }
    if text::same_text(cleaned.as_str(), "") {
        proof {
            reveal_strlit("DirectShow Camera ");
        }
        text::joined("DirectShow Camera ", number.as_str())
    } else {
        cleaned
    }
}

// ---------------------------------------------------------------------------
// Enumeration
// ---------------------------------------------------------------------------

/// What asking for the next camera leads to.
#[derive(Debug, PartialEq, Eq)]
pub enum MonikerStep {
    /// Reads the names of the camera.
    ReadNames,
    /// There are no more cameras.
    Finish,
    Fail(CameraError),
}

/// The mathematical content of a [`MonikerStep`].
pub enum MonikerStepView {
    ReadNames,
    Finish,
    Fail(CameraErrorView),
}

impl View for MonikerStep {
    type V = MonikerStepView;

    open spec fn view(&self) -> MonikerStepView {
        match *self {
            MonikerStep::ReadNames => MonikerStepView::ReadNames,
            MonikerStep::Finish => MonikerStepView::Finish,
            MonikerStep::Fail(e) => MonikerStepView::Fail(e@),
        }
    }
}

/// What asking for the next camera leads to: the list ends where nothing more comes, and fails
/// with the call.
pub open spec fn moniker_step(fetch: Fetch) -> MonikerStepView {
    match fetch.status {
        FetchStatus::Failed(detail) => MonikerStepView::Fail(
            DirectShowCall::NextMoniker.failure(detail@),
        ),
        FetchStatus::Exhausted => MonikerStepView::Finish,
        FetchStatus::Success => if fetch.fetched > 0 && fetch.has_item {
            MonikerStepView::ReadNames
        } else {
            MonikerStepView::Finish
        },
    }
}

/// What asking for the next camera leads to.
pub fn moniker_fetched(fetch: &Fetch) -> (step: MonikerStep)
    ensures
        step@ == moniker_step(*fetch),
{
    match &fetch.status {
        FetchStatus::Failed(detail) => MonikerStep::Fail(
            DirectShowCall::NextMoniker.failed(detail.as_str()),
        ),
        FetchStatus::Exhausted => MonikerStep::Finish,
        FetchStatus::Success => if fetch.fetched > 0 && fetch.has_item {
            MonikerStep::ReadNames
        } else {
            MonikerStep::Finish
        },
    }
}

/// Whether `device` is the camera at `index` with these names.
pub open spec fn is_camera(
    index: nat,
    display: Option<Seq<char>>,
    friendly: Seq<char>,
    device: CameraDevice,
) -> bool {
    &&& device.raw_id@ == text::decimal(index)
    &&& is_camera_name(index, display, friendly, device.name@)
}

/// The cameras that were listed so far.
pub struct CameraList {
    devices: Vec<CameraDevice>,
}

impl View for CameraList {
    type V = Seq<CameraDevice>;

    closed spec fn view(&self) -> Seq<CameraDevice> {
        self.devices@
    }
}

impl CameraList {
    #[verifier::type_invariant]
    spec fn inv(self) -> bool {
        indexed::ids_are_places(self.devices@)
    }

    /// A list without cameras, which is also what there is where DirectShow is not.
    pub fn new() -> (list: Self)
        ensures
            list@ == Seq::<CameraDevice>::empty(),
    {
        CameraList { devices: Vec::new() }
    }

    /// Lists the next camera by its display name, where it can be read as text, and its friendly
    /// name, which is empty where it has none.
    pub fn names_read(
        &mut self,
        display: Result<Option<String>, String>,
        friendly: String,
    ) -> (r: Result<(), CameraError>)
        ensures
            match display {
                Ok(display) => {
                    &&& r is Ok
                    &&& final(self)@.len() == old(self)@.len() + 1
                    &&& final(self)@.drop_last() == old(self)@
                    &&& is_camera(
                        old(self)@.len(),
                        display_view(display),
                        friendly@,
                        final(self)@.last(),
                    )
                },
                Err(detail) => {
                    &&& r matches Err(e) && e@ == DirectShowCall::DisplayName.failure(detail@)
                    &&& final(self)@ == old(self)@
                },
            },
    {
        proof {
            use_type_invariant(&*self);
        }
        let display = match display {
            Ok(display) => display,
            Err(detail) => {
                return Err(DirectShowCall::DisplayName.failed(detail.as_str()));
            },
        };
        let ghost before = self.devices@;
        let index: usize = self.devices.len();
        let raw_id = text::decimal_text(index as u64);
        let name = camera_name(index, display, friendly);
        let mut devices: Vec<CameraDevice> = Vec::new();
        core::mem::swap(&mut devices, &mut self.devices);
        devices.push(CameraDevice { raw_id, name });
        assert(devices@.drop_last() =~= before);
        core::mem::swap(&mut devices, &mut self.devices);
        Ok(())
    }

    /// The cameras.
    pub fn into_devices(self) -> (devices: Vec<CameraDevice>)
        ensures
            devices@ == self@,
            indexed::ids_are_places(devices@),
    {
        proof {
            use_type_invariant(&self);
        }
        self.devices
    }

    /// How many cameras there are.
    pub fn len(&self) -> (n: usize)
        ensures
            n == self@.len(),
    {
        self.devices.len()
    }
}

// ---------------------------------------------------------------------------
// Laws
// ---------------------------------------------------------------------------

/// A text is blank where it is blank without its last character and that is white space.
pub proof fn blank_texts_hold_white_space_only(s: Seq<char>, c: char)
    ensures
        is_blank(Seq::empty()),
        is_blank(s.push(c)) <==> is_blank(s) && is_white_space(c),
{
    let t = s.push(c);
    if is_blank(t) {
        assert(is_white_space(t[s.len() as int]));
        assert forall|i: int| 0 <= i < s.len() implies is_white_space(#[trigger] s[i]) by {
            assert(is_white_space(t[i]));
        }
    }
}

/// What stands behind the last `c` does not depend on what stands before it.
pub proof fn the_end_stands_behind_the_last_mark(front: Seq<char>, c: char, end: Seq<char>)
    requires
        !end.contains(c),
    ensures
        behind_last(front.push(c) + end, c) == end,
        behind_last(end, c) == end,
{
    let s = front.push(c) + end;
    let n = front.len() as int;
    assert(s[n] == c);
    s.index_of_last_ensures(c);
    end.index_of_last_ensures(c);
    let k = s.index_of_last(c)->Some_0;
    assert(k == n) by {
        if k > n {
            assert(end[k - n - 1] == c);
        }
        if k < n {
            assert(s[n] == c);
        }
    }
    assert(s.skip(n + 1) =~= end);
}

/// Trimming takes any number of `c` from both ends and nothing else, and has one result.
pub proof fn trimming_takes_the_ends(
    before: nat,
    middle: Seq<char>,
    after: nat,
    c: char,
    other: Seq<char>,
)
    requires
        middle.len() > 0 ==> middle[0] != c && middle.last() != c,
    ensures
        is_trimmed(
            Seq::new(before, |i: int| c) + middle + Seq::new(after, |i: int| c),
            c,
            other,
        ) <==> other == middle,
{
    let s = Seq::new(before, |i: int| c) + middle + Seq::new(after, |i: int| c);
    let to = (before + middle.len()) as int;
    assert(trims_to(s, c, before as int, to));
    assert(s.subrange(before as int, to) =~= middle);
    assert(is_trimmed(s, c, middle));
    if is_trimmed(s, c, other) {
        lemma_trimmed_is_unique(s, c, middle, other);
    }
}

/// A camera is called by its friendly name unless that is blank, else by what stands behind the
/// last exclamation mark of its display name without zeros at its ends, and by its number where
/// that is nothing. Without a display name there is one made of its number.
pub proof fn cameras_are_called_by_their_best_name(
    index: nat,
    display: Option<Seq<char>>,
    friendly: Seq<char>,
    name: Seq<char>,
    end: Seq<char>,
)
    requires
        is_trimmed(
            behind_last(
                match display {
                    Some(text) => text,
                    None => "dshow-device-"@ + text::decimal(index),
                },
                '!',
            ),
            '\u{0}',
            end,
        ),
    ensures
        is_camera_name(index, display, friendly, name) <==> name == (if !is_blank(friendly) {
            friendly
        } else if end.len() > 0 {
            end
        } else {
            "DirectShow Camera "@ + text::decimal(index)
        }),
{
    let shown = match display {
        Some(text) => text,
        None => "dshow-device-"@ + text::decimal(index),
    };
    let s = behind_last(shown, '!');
    if end.len() == 0 {
        assert(end =~= Seq::<char>::empty());
    } else if is_trimmed(s, '\u{0}', Seq::empty()) {
        lemma_trimmed_is_unique(s, '\u{0}', end, Seq::empty());
    }
    if is_trimmed(s, '\u{0}', name) {
        lemma_trimmed_is_unique(s, '\u{0}', end, name);
    }
}

/// A camera is listed by its place and under its name.
pub proof fn cameras_are_listed_by_place_and_name(
    index: nat,
    display: Option<Seq<char>>,
    friendly: Seq<char>,
    device: CameraDevice,
)
    ensures
        is_camera(index, display, friendly, device) <==> device.raw_id@ == text::decimal(index)
            && is_camera_name(index, display, friendly, device.name@),
{
}

/// The list goes on as long as cameras come: it ends where the enumerator is exhausted or gives
/// nothing, and fails only where the call fails.
pub proof fn a_list_goes_on_while_cameras_come(fetch: Fetch)
    ensures
        match fetch.status {
            FetchStatus::Failed(detail) => moniker_step(fetch) == MonikerStepView::Fail(
                CameraErrorView::BackendFailure("IEnumMoniker::Next"@ + " failed: "@ + detail@),
            ),
            FetchStatus::Exhausted => moniker_step(fetch) is Finish,
            FetchStatus::Success => {
                &&& fetch.fetched != 0 && fetch.has_item ==> moniker_step(fetch) is ReadNames
                &&& fetch.fetched == 0 || !fetch.has_item ==> moniker_step(fetch) is Finish
            },
        },
{
}

/// Names and steps are compared by what they hold.
pub proof fn names_and_steps_are_seen_by_what_they_hold(display: String, e: CameraError)
    ensures
        display_view(Some(display)) == Some(display@),
        display_view(None) is None,
        MonikerStep::ReadNames@ is ReadNames,
        MonikerStep::Finish@ is Finish,
        MonikerStep::Fail(e)@ == MonikerStepView::Fail(e@),
{
}

}
