//! simple widgets for the lock screen: where a password box puts its failure
//! text, and what the uptime and network interface labels read from the
//! commands that report them.

use vstd::prelude::*;

use crate::option_string_view;

verus! {

/// how something is aligned along an axis (the variants of `egui::Align`)
#[derive(PartialEq, Eq, Structural, Debug, Clone, Copy)]
pub enum Align {
    /// left or top
    Min,
    /// center
    Center,
    /// right or bottom
    Max,
}

/// Location for the failure to login text of a password box
#[derive(PartialEq, Eq, Structural, Debug, Clone, Copy)]
pub enum FailureTextLocation {
    /// Failure text on top of the input box; the [`Align`] says whether the
    /// failure text is aligned to the left edge of the input box ([`Align::Min`]),
    /// to the right edge ([`Align::Max`]) or centered ([`Align::Center`])
    Top(Align),
    /// Failure text below the input box, aligned as for [`FailureTextLocation::Top`]
    Bottom(Align),
    /// Failure text is on the left of the input box
    Left,
    /// Failure text is on the right of the input box
    Right,
}

/// the direction in which a password box lays out its input box and failure text
#[derive(PartialEq, Eq, Structural, Debug, Clone, Copy)]
pub enum Flow {
    /// one under the other, aligned to the left (`Layout::top_down(Align::Min)`)
    TopDown,
    /// side by side, aligned to the top (`Layout::left_to_right(Align::Min)`)
    LeftToRight,
}

/// on which side of the input box the failure text goes
#[derive(PartialEq, Eq, Structural, Debug, Clone, Copy)]
pub enum Side {
    /// added before the input box: above it or left of it
    Before,
    /// added after the input box: below it or right of it
    After,
}

/// what takes the failure text's place
#[derive(PartialEq, Eq, Structural, Debug, Clone, Copy)]
pub enum FailureTextContent {
    /// the failure text, in a top-down layout with this alignment
    AlignedLabel(Align),
    /// the failure text, as a plain label
    Label,
    /// empty space as large as the failure text along the flow (its height
    /// when the flow is [`Flow::TopDown`], its width otherwise), so that the
    /// input box does not move when the text appears
    Space,
}

/// how a password box lays out its input box and its failure text
#[derive(PartialEq, Eq, Structural, Debug, Clone, Copy)]
pub struct FailureTextPlan {
    pub flow: Flow,
    pub side: Side,
    pub content: FailureTextContent,
}

/// the plan for a failure text at `loc`, when the last login has (or has not) failed:
/// above or below the input box the flow is top-down, left or right of it the
/// flow is left to right; the text is shown only after a failure, and its
/// space is kept otherwise.
pub open spec fn plan_for(loc: FailureTextLocation, has_failed: bool) -> FailureTextPlan {
    let flow = match loc {
        FailureTextLocation::Top(_) | FailureTextLocation::Bottom(_) => Flow::TopDown,
        _ => Flow::LeftToRight,
    };
    let side = match loc {
        FailureTextLocation::Top(_) | FailureTextLocation::Left => Side::Before,
        _ => Side::After,
    };
    let content = if !has_failed {
        FailureTextContent::Space
    } else {
        match loc {
            FailureTextLocation::Top(align) => FailureTextContent::AlignedLabel(align),
            FailureTextLocation::Bottom(align) => FailureTextContent::AlignedLabel(align),
            _ => FailureTextContent::Label,
        }
    };
    FailureTextPlan { flow, side, content }
}

/// The input box does not move when the failure text appears: whether or not
/// the last login failed, the layout has the same flow and the failure text
/// (or the space kept for it) stands on the same side of the input box.
pub proof fn lemma_failure_text_keeps_place(loc: FailureTextLocation)
    ensures
        plan_for(loc, true).flow == plan_for(loc, false).flow,
        plan_for(loc, true).side == plan_for(loc, false).side,
        plan_for(loc, false).content == FailureTextContent::Space,
        plan_for(loc, true).content != FailureTextContent::Space,
{
}

/// After a failed login, the failure text takes the alignment that its
/// location carries: above or below the input box it is laid out with exactly
/// that alignment, and left or right of it it is a plain label.
pub proof fn lemma_failure_text_takes_its_alignment(a: Align)
    ensures
        plan_for(FailureTextLocation::Top(a), true).content == FailureTextContent::AlignedLabel(a),
        plan_for(FailureTextLocation::Bottom(a), true).content == FailureTextContent::AlignedLabel(a),
        plan_for(FailureTextLocation::Left, true).content == FailureTextContent::Label,
        plan_for(FailureTextLocation::Right, true).content == FailureTextContent::Label,
        plan_for(FailureTextLocation::Top(a), true).side == Side::Before,
        plan_for(FailureTextLocation::Bottom(a), true).side == Side::After,
        plan_for(FailureTextLocation::Left, true).side == Side::Before,
        plan_for(FailureTextLocation::Right, true).side == Side::After,
{
}

impl FailureTextLocation {
    /// how a password box with its failure text here lays itself out
    pub fn plan(&self, has_failed: bool) -> (plan: FailureTextPlan)
        ensures
            plan == plan_for(*self, has_failed),
            plan.flow == (if *self is Top || *self is Bottom { Flow::TopDown } else { Flow::LeftToRight }),
            plan.side == (if *self is Top || *self is Left { Side::Before } else { Side::After }),
            !has_failed ==> plan.content == FailureTextContent::Space,
            has_failed ==> plan.content == (match *self {
                FailureTextLocation::Top(a) => FailureTextContent::AlignedLabel(a),
                FailureTextLocation::Bottom(a) => FailureTextContent::AlignedLabel(a),
                _ => FailureTextContent::Label,
            }),
    {
        let flow = match self {
            FailureTextLocation::Top(_) | FailureTextLocation::Bottom(_) => Flow::TopDown,
            FailureTextLocation::Left | FailureTextLocation::Right => Flow::LeftToRight,
        };
        let side = match self {
            FailureTextLocation::Top(_) | FailureTextLocation::Left => Side::Before,
            FailureTextLocation::Bottom(_) | FailureTextLocation::Right => Side::After,
        };
        let content = if !has_failed {
            FailureTextContent::Space
        } else {
            match self {
                FailureTextLocation::Top(align) => FailureTextContent::AlignedLabel(*align),
                FailureTextLocation::Bottom(align) => FailureTextContent::AlignedLabel(*align),
                FailureTextLocation::Left | FailureTextLocation::Right => FailureTextContent::Label,
            }
        };
        FailureTextPlan { flow, side, content }
    }
}

/// the label that a widget shows when it could not read what it displays
pub open spec fn error_label() -> Seq<char> {
    seq!['E', 'R', 'R', 'O', 'R']
}

/// whether `i` is the position of the first space of `text`
pub open spec fn is_first_space(text: Seq<char>, i: int) -> bool {
    &&& 0 <= i < text.len()
    &&& text[i] == ' '
    &&& forall|j: int| 0 <= j < i ==> text[j] != ' '
}

/// the position of the first space of `text`, if it has one
pub open spec fn first_space(text: Seq<char>) -> Option<int> {
    if text.contains(' ') {
        Some(choose|i: int| is_first_space(text, i))
    } else {
        None
    }
}

/// what follows the first space of `text` (as `str::split_once(' ')` gives it)
pub open spec fn after_first_space(text: Seq<char>) -> Option<Seq<char>> {
    match first_space(text) {
        Some(i) => Some(text.subrange(i + 1, text.len() as int)),
        None => None,
    }
}

/// field `n` (from 0) of `text` cut at each space (as `str::split(' ').nth(n)`
/// gives it: two spaces in a row make an empty field)
pub open spec fn nth_field(text: Seq<char>, n: nat) -> Option<Seq<char>>
    decreases n,
{
    match first_space(text) {
        Some(i) => if n == 0 {
            Some(text.subrange(0, i))
        } else {
            nth_field(text.subrange(i + 1, text.len() as int), (n - 1) as nat)
        },
        None => if n == 0 {
            Some(text)
        } else {
            None
        },
    }
}

proof fn lemma_first_space_unique(text: Seq<char>, i: int)
    requires
        is_first_space(text, i),
    ensures
        first_space(text) == Some(i),
{
    assert(text.contains(' '));
    let k = choose|k: int| is_first_space(text, k);
    assert(is_first_space(text, k));
    if k < i {
        assert(text[k] != ' ');
    } else if i < k {
        assert(text[i] != ' ');
    }
}

proof fn lemma_no_space(text: Seq<char>)
    requires
        forall|j: int| 0 <= j < text.len() ==> text[j] != ' ',
    ensures
        first_space(text) is None,
{
    if text.contains(' ') {
        let j = choose|j: int| 0 <= j < text.len() && text[j] == ' ';
        assert(text[j] != ' ');
    }
}

/// Field 0 of a text is the whole run before its first space (the whole text
/// when it has no space), and field `n + 1` is field `n` of what follows that
/// space; a text with no space has no field after the first. This is how
/// `str::split(' ').nth(n)` cuts a text, whatever the lengths of the fields.
pub proof fn lemma_fields_of_text(a: Seq<char>, b: Seq<char>, n: nat)
    requires
        forall|j: int| 0 <= j < a.len() ==> a[j] != ' ',
    ensures
        nth_field(a + seq![' '] + b, 0) == Some(a),
        nth_field(a + seq![' '] + b, n + 1) == nth_field(b, n),
        nth_field(a, 0) == Some(a),
        nth_field(a, n + 1) is None,
{
    let text = a + seq![' '] + b;
    let i = a.len() as int;
    assert(text[i] == ' ');
    assert forall|j: int| 0 <= j < i implies text[j] != ' ' by {
        assert(text[j] == a[j]);
    }
    lemma_first_space_unique(text, i);
    assert(text.subrange(0, i) =~= a);
    assert(text.subrange(i + 1, text.len() as int) =~= b);
    lemma_no_space(a);
}

/// the position of the first space of `text`
fn find_space(text: &str) -> (r: Option<usize>)
    ensures
        match r {
            Some(i) => is_first_space(text@, i as int) && first_space(text@) == Some(i as int),
            None => first_space(text@) is None,
        },
{
    let len = text.unicode_len();
    let mut i: usize = 0;
    while i < len
        invariant
            len == text@.len(),
            i <= len,
            forall|j: int| 0 <= j < i ==> text@[j] != ' ',
        decreases len - i,
    {
        if text.get_char(i) == ' ' {
            proof {
                lemma_first_space_unique(text@, i as int);
            }
            return Some(i);
        }
        i = i + 1;
    }
    proof {
        lemma_no_space(text@);
    }
    None
}

/// whether `c` is ASCII whitespace: a space, a tab, a line feed, a form feed
/// or a carriage return
pub open spec fn is_ascii_space(c: char) -> bool {
    c == ' ' || c == '\t' || c == '\n' || c == '\x0C' || c == '\r'
}

/// `text` without the ASCII whitespace at its end
pub open spec fn trim_end(text: Seq<char>) -> Seq<char>
    decreases text.len(),
{
    if text.len() > 0 && is_ascii_space(text.last()) {
        trim_end(text.drop_last())
    } else {
        text
    }
}

/// the uptime that `uptime -p` reports in `text`: what follows its first word,
/// without the line end (and any other whitespace) after it
pub open spec fn uptime_of(text: Seq<char>) -> Option<Seq<char>> {
    match after_first_space(text) {
        Some(rest) => Some(trim_end(rest)),
        None => None,
    }
}

/// What [`trim_end`] takes away is exactly the ASCII whitespace at the end:
/// the result is a prefix of the text, everything after it is a space, a tab,
/// a line feed, a form feed or a carriage return, and it does not end with one.
pub proof fn lemma_trim_end_drops_only_trailing_space(t: Seq<char>)
    ensures
        trim_end(t).len() <= t.len(),
        trim_end(t) == t.subrange(0, trim_end(t).len() as int),
        forall|j: int| trim_end(t).len() <= j < t.len() ==> {
            let c = #[trigger] t[j];
            c == ' ' || c == '\t' || c == '\n' || c == '\x0C' || c == '\r'
        },
        trim_end(t).len() > 0 ==> {
            let c = trim_end(t).last();
            !(c == ' ' || c == '\t' || c == '\n' || c == '\x0C' || c == '\r')
        },
    decreases t.len(),
{
    if t.len() > 0 && is_ascii_space(t.last()) {
        let front = t.drop_last();
        lemma_trim_end_drops_only_trailing_space(front);
        let k = trim_end(front).len() as int;
        assert(t.subrange(0, k) =~= front.subrange(0, k));
        assert forall|j: int| k <= j < t.len() implies {
            let c = #[trigger] t[j];
            c == ' ' || c == '\t' || c == '\n' || c == '\x0C' || c == '\r'
        } by {
            if j < t.len() - 1 {
                assert(t[j] == front[j]);
            }
        }
    } else {
        assert(t.subrange(0, t.len() as int) =~= t);
    }
}

fn is_space_char(c: char) -> (b: bool)
    ensures
        b == is_ascii_space(c),
{
    c == ' ' || c == '\t' || c == '\n' || c == '\x0C' || c == '\r'
}

/// `text` without the ASCII whitespace at its end
fn trim_trailing_space(text: &str) -> (r: &str)
    ensures
        r@ == trim_end(text@),
{
    let len = text.unicode_len();
    let mut end: usize = len;
    proof {
        assert(text@.subrange(0, len as int) =~= text@);
    }
    while end > 0 && is_space_char(text.get_char(end - 1))
        invariant
            len == text@.len(),
            end <= len,
            trim_end(text@.subrange(0, end as int)) == trim_end(text@),
        decreases end,
    {
        proof {
            assert(text@.subrange(0, end as int).drop_last() =~= text@.subrange(0, end - 1));
        }
        end = end - 1;
    }
    proof {
        if end == 0 {
            assert(text@.subrange(0, 0) =~= Seq::<char>::empty());
        }
    }
    text.substring_char(0, end)
}

/// the uptime that the `uptime -p` command printed: what follows its first
/// word, without the line end: for `"up 3 hours, 2 minutes\n"` that is
/// `"3 hours, 2 minutes"`. `None` when the text has no space.
pub fn uptime_text(text: &str) -> (r: Option<String>)
    ensures
        option_string_view(r) == uptime_of(text@),
        r is None <==> !text@.contains(' '),
        r matches Some(s) ==> exists|i: int|
            #![trigger text@[i]]
            0 <= i < text@.len() && text@[i] == ' ' && (forall|j: int| 0 <= j < i ==> text@[j] != ' ')
            && i + 1 + s@.len() <= text@.len()
            && s@ == text@.subrange(i + 1, i + 1 + s@.len())
            && (forall|j: int| i + 1 + s@.len() <= j < text@.len() ==> {
                let c = #[trigger] text@[j];
                c == ' ' || c == '\t' || c == '\n' || c == '\x0C' || c == '\r'
            })
            && (s@.len() > 0 ==> {
                let c = s@.last();
                !(c == ' ' || c == '\t' || c == '\n' || c == '\x0C' || c == '\r')
            }),
{
    let len = text.unicode_len();
    match find_space(text) {
        Some(i) => {
            let rest = text.substring_char(i + 1, len);
            let trimmed = trim_trailing_space(rest);
            let r = trimmed.to_owned();
            proof {
                let t = rest@;
                lemma_trim_end_drops_only_trailing_space(t);
                let k = r@.len() as int;
                assert(t == text@.subrange(i + 1, len as int));
                assert(r@ =~= text@.subrange(i + 1, i + 1 + k));
                assert forall|j: int| i + 1 + k <= j < text@.len() implies {
                    let c = #[trigger] text@[j];
                    c == ' ' || c == '\t' || c == '\n' || c == '\x0C' || c == '\r'
                } by {
                    assert(text@[j] == t[j - i - 1]);
                }
                assert(text@[i as int] == ' ');
            }
            Some(r)
        },
        None => {
            proof {
                assert(!text@.contains(' '));
            }
            None
        },
    }
}

/// the network interface named in what `ip route show default` printed: the
/// fifth word of its first line, as in `"default via 10.0.0.1 dev wlan0 ..."`,
/// where it is `"wlan0"`. `None` when the text has fewer than five words.
pub fn interface_text(text: &str) -> (r: Option<String>)
    ensures
        option_string_view(r) == nth_field(text@, 4),
{
    let mut rest: &str = text;
    let mut skipped: usize = 0;
    while skipped < 4
        invariant
            skipped <= 4,
            nth_field(rest@, (4 - skipped) as nat) == nth_field(text@, 4),
        decreases 4 - skipped,
    {
        let len = rest.unicode_len();
        match find_space(rest) {
            Some(i) => {
                rest = rest.substring_char(i + 1, len);
            },
            None => {
                return None;
            },
        }
        skipped = skipped + 1;
    }
    match find_space(rest) {
        Some(i) => Some(rest.substring_char(0, i).to_owned()),
        None => Some(rest.to_owned()),
    }
}

/// the name of a UTF-8 decoding that replaces each invalid sequence of bytes
/// with U+FFFD, as `String::from_utf8_lossy` does
pub uninterp spec fn lossy_utf8(bytes: Seq<u8>) -> Seq<char>;

/// `String::from_utf8_lossy`: the text of `bytes`, where each invalid UTF-8
/// sequence is replaced with U+FFFD. Of valid UTF-8 it gives the text that
/// those bytes encode; what it gives otherwise is only named.
#[verifier::external_body]
fn decode_lossy(bytes: &[u8]) -> (text: String)
    ensures
        text@ == lossy_utf8(bytes@),
        vstd::utf8::valid_utf8(bytes@) ==> vstd::utf8::encode_utf8(text@) == bytes@,
{
    String::from_utf8_lossy(bytes).into_owned()
}

/// the text that a label shows for what a command printed (`output`), read by
/// `read`: what was read, or `"ERROR"` when the command could not run or its
/// output could not be read
pub open spec fn label_for(output: Option<Seq<u8>>, read: spec_fn(Seq<char>) -> Option<Seq<char>>) -> Seq<char> {
    match output {
        Some(bytes) => match read(lossy_utf8(bytes)) {
            Some(t) => t,
            None => error_label(),
        },
        None => error_label(),
    }
}

/// the text of an uptime label, from what `uptime -p` printed on its standard
/// output (`None` when the command could not be run)
pub fn uptime_label(stdout: Option<&[u8]>) -> (label: String)
    ensures
        label@ == label_for(
            match stdout {
                Some(b) => Some(b@),
                None => None,
            },
            |t: Seq<char>| uptime_of(t),
        ),
        stdout is None ==> label@ == seq!['E', 'R', 'R', 'O', 'R'],
{
    let read = match stdout {
        Some(bytes) => uptime_text(decode_lossy(bytes).as_str()),
        None => None,
    };
    match read {
        Some(t) => t,
        None => {
            proof {
                reveal_strlit("ERROR");
            }
            "ERROR".to_owned()
        },
    }
}

/// the text of a network interface label, from what `ip route show default`
/// printed on its standard output (`None` when the command could not be run)
pub fn interface_label(stdout: Option<&[u8]>) -> (label: String)
    ensures
        label@ == label_for(
            match stdout {
                Some(b) => Some(b@),
                None => None,
            },
            |t: Seq<char>| nth_field(t, 4),
        ),
        stdout is None ==> label@ == seq!['E', 'R', 'R', 'O', 'R'],
{
    let read = match stdout {
        Some(bytes) => interface_text(decode_lossy(bytes).as_str()),
        None => None,
    };
    match read {
        Some(t) => t,
        None => {
            proof {
                reveal_strlit("ERROR");
            }
            "ERROR".to_owned()
        },
    }
}

} // verus!
