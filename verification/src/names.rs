//! Names of keys, mouse buttons and scroll units, and the reading of a name with a suggestion
//! for a near miss.
use crate::text;
use crate::text::{cat2, cat3, cat4, lowered, same_bytes};
use vstd::prelude::*;

verus! {

/// The key names that a request may use, in the order of Bevy's `KeyCode` variants.
pub const KEY_CODE_NAMES: [&'static str; 194] = [
    "Backquote", "Backslash", "BracketLeft", "BracketRight", "Comma", "Digit0", "Digit1",
    "Digit2", "Digit3", "Digit4", "Digit5", "Digit6", "Digit7", "Digit8", "Digit9", "Equal",
    "IntlBackslash", "IntlRo", "IntlYen", "KeyA", "KeyB", "KeyC", "KeyD", "KeyE", "KeyF", "KeyG",
    "KeyH", "KeyI", "KeyJ", "KeyK", "KeyL", "KeyM", "KeyN", "KeyO", "KeyP", "KeyQ", "KeyR",
    "KeyS", "KeyT", "KeyU", "KeyV", "KeyW", "KeyX", "KeyY", "KeyZ", "Minus", "Period", "Quote",
    "Semicolon", "Slash", "AltLeft", "AltRight", "Backspace", "CapsLock", "ContextMenu",
    "ControlLeft", "ControlRight", "Enter", "SuperLeft", "SuperRight", "ShiftLeft", "ShiftRight",
    "Space", "Tab", "Convert", "KanaMode", "Lang1", "Lang2", "Lang3", "Lang4", "Lang5",
    "NonConvert", "Delete", "End", "Help", "Home", "Insert", "PageDown", "PageUp", "ArrowDown",
    "ArrowLeft", "ArrowRight", "ArrowUp", "NumLock", "Numpad0", "Numpad1", "Numpad2", "Numpad3",
    "Numpad4", "Numpad5", "Numpad6", "Numpad7", "Numpad8", "Numpad9", "NumpadAdd",
    "NumpadBackspace", "NumpadClear", "NumpadClearEntry", "NumpadComma", "NumpadDecimal",
    "NumpadDivide", "NumpadEnter", "NumpadEqual", "NumpadHash", "NumpadMemoryAdd",
    "NumpadMemoryClear", "NumpadMemoryRecall", "NumpadMemoryStore", "NumpadMemorySubtract",
    "NumpadMultiply", "NumpadParenLeft", "NumpadParenRight", "NumpadStar", "NumpadSubtract",
    "Escape", "Fn", "FnLock", "PrintScreen", "ScrollLock", "Pause", "BrowserBack",
    "BrowserFavorites", "BrowserForward", "BrowserHome", "BrowserRefresh", "BrowserSearch",
    "BrowserStop", "Eject", "LaunchApp1", "LaunchApp2", "LaunchMail", "MediaPlayPause",
    "MediaSelect", "MediaStop", "MediaTrackNext", "MediaTrackPrevious", "Power", "Sleep",
    "AudioVolumeDown", "AudioVolumeMute", "AudioVolumeUp", "WakeUp", "Meta", "Hyper", "Turbo",
    "Abort", "Resume", "Suspend", "Again", "Copy", "Cut", "Find", "Open", "Paste", "Props",
    "Select", "Undo", "Hiragana", "Katakana", "F1", "F2", "F3", "F4", "F5", "F6", "F7", "F8",
    "F9", "F10", "F11", "F12", "F13", "F14", "F15", "F16", "F17", "F18", "F19", "F20", "F21",
    "F22", "F23", "F24", "F25", "F26", "F27", "F28", "F29", "F30", "F31", "F32", "F33", "F34",
    "F35",
];

/// The mouse button names that a request may use.
pub const MOUSE_BUTTON_NAMES: [&'static str; 5] = ["Left", "Right", "Middle", "Back", "Forward"];

/// The scroll unit names that a request may use.
pub const MOUSE_SCROLL_UNIT_NAMES: [&'static str; 2] = ["Line", "Pixel"];

/// The smaller of two numbers.
pub open spec fn min_of(a: nat, b: nat) -> nat {
    if a <= b {
        a
    } else {
        b
    }
}

/// The least number of single-byte substitutions, insertions and deletions that turn the first
/// `i` bytes of `a` into the first `j` bytes of `b`.
pub open spec fn prefix_distance(a: Seq<u8>, b: Seq<u8>, i: nat, j: nat) -> nat
    decreases i + j,
{
    if i == 0 {
        j
    } else if j == 0 {
        i
    } else {
        let substitution = prefix_distance(a, b, (i - 1) as nat, (j - 1) as nat) + if a[i - 1]
            != b[j - 1] {
            1nat
        } else {
            0nat
        };
        let insertion = prefix_distance(a, b, i, (j - 1) as nat) + 1;
        let deletion = prefix_distance(a, b, (i - 1) as nat, j) + 1;
        min_of(min_of(substitution, insertion), deletion)
    }
}

/// The least number of single-byte edits that turn `a` into `b`.
pub open spec fn edit_distance(a: Seq<u8>, b: Seq<u8>) -> nat {
    prefix_distance(a, b, a.len(), b.len())
}

/// Two prefixes are at least as far apart as their lengths differ.
proof fn lemma_distance_at_least_length_gap(a: Seq<u8>, b: Seq<u8>, i: nat, j: nat)
    ensures
        prefix_distance(a, b, i, j) >= i - j,
        prefix_distance(a, b, i, j) >= j - i,
    decreases i + j,
{
    if i > 0 && j > 0 {
        lemma_distance_at_least_length_gap(a, b, (i - 1) as nat, (j - 1) as nat);
        lemma_distance_at_least_length_gap(a, b, i, (j - 1) as nat);
        lemma_distance_at_least_length_gap(a, b, (i - 1) as nat, j);
    }
}

/// Two prefixes are at most as far apart as the longer one is long.
proof fn lemma_distance_at_most_longer(a: Seq<u8>, b: Seq<u8>, i: nat, j: nat)
    ensures
        prefix_distance(a, b, i, j) <= i || prefix_distance(a, b, i, j) <= j,
    decreases i + j,
{
    if i > 0 && j > 0 {
        lemma_distance_at_most_longer(a, b, (i - 1) as nat, (j - 1) as nat);
    }
}

/// Once every entry of a row exceeds a bound, so does every entry of each later row.
proof fn lemma_rows_never_recover(a: Seq<u8>, b: Seq<u8>, row: nat, i: nat, j: nat, bound: nat)
    requires
        row <= i,
        j <= b.len(),
        forall|k: nat| k <= b.len() ==> #[trigger] prefix_distance(a, b, row, k) > bound,
    ensures
        prefix_distance(a, b, i, j) > bound,
    decreases i - row, j,
{
    if i > row {
        if j == 0 {
            assert(prefix_distance(a, b, row, 0) > bound);
        } else {
            lemma_rows_never_recover(a, b, row, (i - 1) as nat, (j - 1) as nat, bound);
            lemma_rows_never_recover(a, b, row, (i - 1) as nat, j, bound);
            lemma_rows_never_recover(a, b, row, i, (j - 1) as nat, bound);
        }
    }
}

/// Law: the edit distance does not depend on which text is edited.
pub proof fn law_edit_distance_symmetric(a: Seq<u8>, b: Seq<u8>)
    ensures
        edit_distance(a, b) == edit_distance(b, a),
{
    lemma_prefix_distance_symmetric(a, b, a.len(), b.len());
}

proof fn lemma_prefix_distance_symmetric(a: Seq<u8>, b: Seq<u8>, i: nat, j: nat)
    ensures
        prefix_distance(a, b, i, j) == prefix_distance(b, a, j, i),
    decreases i + j,
{
    if i > 0 && j > 0 {
        lemma_prefix_distance_symmetric(a, b, (i - 1) as nat, (j - 1) as nat);
        lemma_prefix_distance_symmetric(a, b, i, (j - 1) as nat);
        lemma_prefix_distance_symmetric(a, b, (i - 1) as nat, j);
    }
}

/// Law: two runs of bytes are at distance zero exactly where they are equal.
pub proof fn law_edit_distance_zero_iff_equal(a: Seq<u8>, b: Seq<u8>)
    ensures
        edit_distance(a, b) == 0 <==> a == b,
{
    lemma_distance_at_least_length_gap(a, b, a.len(), b.len());
    if a.len() == b.len() {
        lemma_diagonal(a, b, a.len());
        if edit_distance(a, b) == 0 {
            assert(a =~= b);
        }
    }
}

proof fn lemma_diagonal(a: Seq<u8>, b: Seq<u8>, i: nat)
    requires
        i <= a.len(),
        a.len() == b.len(),
    ensures
        prefix_distance(a, b, i, i) == 0 <==> (forall|k: int| 0 <= k < i ==> a[k] == b[k]),
    decreases i,
{
    if i > 0 {
        lemma_diagonal(a, b, (i - 1) as nat);
        lemma_distance_at_least_length_gap(a, b, i, (i - 1) as nat);
        lemma_distance_at_least_length_gap(a, b, (i - 1) as nat, i);
        if forall|k: int| 0 <= k < i ==> a[k] == b[k] {
            assert(a[i - 1] == b[i - 1]);
            assert forall|k: int| 0 <= k < i - 1 implies a[k] == b[k] by {}
        }
    }
}

/// The edit distance of two byte strings, where it does not exceed `cutoff`.
pub fn edit_distance_with_cutoff(left: &Vec<u8>, right: &Vec<u8>, cutoff: usize) -> (r: Option<
    usize,
>)
    ensures
        match r {
            Some(d) => d == edit_distance(left@, right@) && d <= cutoff,
            None => edit_distance(left@, right@) > cutoff,
        },
{
    let n: usize = left.len();
    let m: usize = right.len();
    let gap: usize = if n > m {
        n - m
    } else {
        m - n
    };
    proof {
        lemma_distance_at_least_length_gap(left@, right@, n as nat, m as nat);
    }
    if gap > cutoff {
        return None;
    }
    let mut previous: Vec<usize> = Vec::new();
    previous.push(0);
    let mut k: usize = 0;
    while k < m
        invariant
            k <= m,
            previous@.len() == k + 1,
            forall|q: int| 0 <= q <= k ==> previous@[q] == prefix_distance(left@, right@, 0, q as nat),
        decreases m - k,
    {
        k = k + 1;
        previous.push(k);
    }
    let mut i: usize = 0;
    while i < n
        invariant
            n == left@.len(),
            m == right@.len(),
            i <= n,
            previous@.len() == m + 1,
            forall|q: int|
                0 <= q <= m ==> #[trigger] previous@[q] == prefix_distance(
                    left@,
                    right@,
                    i as nat,
                    q as nat,
                ),
        decreases n - i,
    {
        let left_byte: u8 = left[i];
        let mut current: Vec<usize> = Vec::new();
        current.push(i + 1);
        let mut row_minimum: usize = i + 1;
        let mut j: usize = 0;
        while j < m
            invariant
                n == left@.len(),
                m == right@.len(),
                    i < n,
                j <= m,
                left_byte == left@[i as int],
                previous@.len() == m + 1,
                current@.len() == j + 1,
                forall|q: int|
                    0 <= q <= m ==> #[trigger] previous@[q] == prefix_distance(
                        left@,
                        right@,
                        i as nat,
                        q as nat,
                    ),
                forall|q: int|
                    0 <= q <= j ==> #[trigger] current@[q] == prefix_distance(
                        left@,
                        right@,
                        (i + 1) as nat,
                        q as nat,
                    ) && row_minimum <= current@[q],
            decreases m - j,
        {
            let substitution: usize = if left_byte != right[j] {
                previous[j].saturating_add(1)
            } else {
                previous[j]
            };
            let insertion: usize = current[j].saturating_add(1);
            let deletion: usize = previous[j + 1].saturating_add(1);
            let mut distance: usize = if substitution <= insertion {
                substitution
            } else {
                insertion
            };
            if deletion < distance {
                distance = deletion;
            }
            proof {
                lemma_distance_at_most_longer(left@, right@, (i + 1) as nat, (j + 1) as nat);
            }
            current.push(distance);
            if distance < row_minimum {
                row_minimum = distance;
            }
            assert(distance == prefix_distance(left@, right@, (i + 1) as nat, (j + 1) as nat));
            j = j + 1;
        }
        if row_minimum > cutoff {
            proof {
                assert forall|q: nat| q <= right@.len() implies #[trigger] prefix_distance(
                    left@,
                    right@,
                    (i + 1) as nat,
                    q,
                ) > cutoff by {
                    assert(current@[q as int] >= row_minimum);
                }
                lemma_rows_never_recover(
                    left@,
                    right@,
                    (i + 1) as nat,
                    n as nat,
                    m as nat,
                    cutoff as nat,
                );
            }
            return None;
        }
        previous = current;
        i = i + 1;
    }
    let total: usize = previous[m];
    if total <= cutoff {
        Some(total)
    } else {
        None
    }
}

/// A text in ASCII lower case, as bytes.
pub open spec fn folded(s: Seq<char>) -> Seq<u8> {
    text::lower_bytes(vstd::utf8::encode_utf8(s))
}

/// Tells whether the name at `i` is `value` up to ASCII case.
pub open spec fn names_match(names: Seq<&'static str>, value: Seq<char>, i: int) -> bool {
    folded(names[i]@) == folded(value)
}

/// The distance of the name at `i` from `value`, without regard to ASCII case.
pub open spec fn name_distance(names: Seq<&'static str>, value: Seq<char>, i: int) -> nat {
    edit_distance(folded(value), folded(names[i]@))
}

/// The name at `best` is the first among those nearest to `value`, at most two edits away.
pub open spec fn is_suggestion(names: Seq<&'static str>, value: Seq<char>, best: int) -> bool {
    &&& 0 <= best < names.len()
    &&& name_distance(names, value, best) <= 2
    &&& forall|i: int|
        0 <= i < names.len() ==> #[trigger] name_distance(names, value, i) >= name_distance(
            names,
            value,
            best,
        )
    &&& forall|i: int|
        0 <= i < best ==> #[trigger] name_distance(names, value, i) > name_distance(
            names,
            value,
            best,
        )
}

/// What is said of a name that is not known.
pub open spec fn unknown_name_message(
    kind: Seq<char>,
    value: Seq<char>,
    suggestion: Option<Seq<char>>,
) -> Seq<char> {
    let head = "invalid "@ + kind + " '"@ + value;
    match suggestion {
        Some(name) => head + ("'; did you mean '"@ + name + "'?"@),
        None => head + "'"@,
    }
}

/// The name at `place` is the first that is `value` up to ASCII case.
pub open spec fn is_first_match(names: Seq<&'static str>, value: Seq<char>, place: int) -> bool {
    &&& 0 <= place < names.len()
    &&& names_match(names, value, place)
    &&& forall|i: int| 0 <= i < place ==> !#[trigger] names_match(names, value, i)
}

/// What reading `value` as one of `names` gives: the place of the first name that is equal up to
/// ASCII case, or else a message with the nearest name where one is near.
#[verifier::opaque]
pub open spec fn named(
    kind: Seq<char>,
    value: Seq<char>,
    names: Seq<&'static str>,
) -> Result<int, Seq<char>> {
    if exists|place: int| #[trigger] is_first_match(names, value, place) {
        Ok(choose|place: int| #[trigger] is_first_match(names, value, place))
    } else if exists|best: int| #[trigger] is_suggestion(names, value, best) {
        let best = choose|best: int| #[trigger] is_suggestion(names, value, best);
        Err(unknown_name_message(kind, value, Some(names[best]@)))
    } else {
        Err(unknown_name_message(kind, value, None))
    }
}

/// Reads `value` as one of `names`, without regard to ASCII case.
pub fn parse_named(kind: &str, value: &str, names: &[&'static str]) -> (r: Result<usize, String>)
    ensures
        match r {
            Ok(place) => place < names@.len() && named(kind@, value@, names@)
                == Ok::<int, Seq<char>>(place as int),
            Err(message) => named(kind@, value@, names@) == Err::<int, Seq<char>>(message@),
        },
{
    proof {
        reveal(named);
    }
    let value_lower = lowered(value);
    let mut i: usize = 0;
    while i < names.len()
        invariant
            i <= names@.len(),
            value_lower@ == folded(value@),
            forall|k: int| 0 <= k < i ==> !#[trigger] names_match(names@, value@, k),
        decreases names@.len() - i,
    {
        let name_lower = lowered(names[i]);
        if same_bytes(&name_lower, &value_lower) {
            proof {
                reveal(named);
                assert(is_first_match(names@, value@, i as int));
                let place = choose|place: int| #[trigger] is_first_match(names@, value@, place);
                assert(place == i) by {
                    if place < i {
                        assert(!names_match(names@, value@, place));
                    }
                }
            }
            return Ok(i);
        }
        i = i + 1;
    }
    let mut best: Option<(usize, usize)> = None;
    let mut j: usize = 0;
    while j < names.len()
        invariant
            j <= names@.len(),
            value_lower@ == folded(value@),
            match best {
                None => forall|k: int|
                    0 <= k < j ==> #[trigger] name_distance(names@, value@, k) > 2,
                Some((distance, place)) => {
                    &&& place < j
                    &&& distance == name_distance(names@, value@, place as int)
                    &&& distance <= 2
                    &&& forall|k: int|
                        0 <= k < j ==> #[trigger] name_distance(names@, value@, k) >= distance
                    &&& forall|k: int|
                        0 <= k < place ==> #[trigger] name_distance(names@, value@, k) > distance
                },
            },
        decreases names@.len() - j,
    {
        let name_lower = lowered(names[j]);
        let found = edit_distance_with_cutoff(&value_lower, &name_lower, 2);
        match found {
            Some(distance) => {
                let closer = match best {
                    None => true,
                    Some((best_distance, _)) => distance < best_distance,
                };
                if closer {
                    best = Some((distance, j));
                }
            },
            None => {},
        }
        j = j + 1;
    }
    let head = cat4("invalid ", kind, " '", value);
    match best {
        Some((_, place)) => {
            let tail = cat3("'; did you mean '", names[place], "'?");
            proof {
                assert(is_suggestion(names@, value@, place as int));
                let best = choose|best: int| #[trigger] is_suggestion(names@, value@, best);
                assert(name_distance(names@, value@, place as int) == name_distance(
                    names@,
                    value@,
                    best,
                ));
                assert(best == place);
            }
            Err(cat2(head.as_str(), tail.as_str()))
        },
        None => Err(cat2(head.as_str(), "'")),
    }
}

/// Two texts are the same up to the case of ASCII letters: as long in bytes, and each byte the same
/// once capital letters are made small.
pub open spec fn same_but_for_case(a: Seq<char>, b: Seq<char>) -> bool {
    let x = vstd::utf8::encode_utf8(a);
    let y = vstd::utf8::encode_utf8(b);
    &&& x.len() == y.len()
    &&& forall|i: int|
        0 <= i < x.len() ==> (#[trigger] x[i] == y[i] || (65 <= x[i] <= 90 && y[i] == x[i] + 32) || (
        65 <= y[i] <= 90 && x[i] == y[i] + 32))
}

/// Law: a name is read as the first of the known names that is the same up to ASCII case, and there
/// is no other way to be read. A name that is not known is answered with the known name that takes
/// the fewest edits, where two are enough, and with none where no known name is so near.
pub proof fn law_names_are_read_without_case(
    kind: Seq<char>,
    value: Seq<char>,
    names: Seq<&'static str>,
)
    ensures
        named(kind, value, names) matches Ok(place) ==> {
            &&& 0 <= place < names.len()
            &&& same_but_for_case(names[place]@, value)
            &&& forall|i: int| 0 <= i < place ==> !same_but_for_case((#[trigger] names[i])@, value)
        },
        named(kind, value, names) is Err <==> forall|i: int|
            0 <= i < names.len() ==> !same_but_for_case((#[trigger] names[i])@, value),
        named(kind, value, names) matches Err(message) ==> {
            ||| exists|best: int|
                0 <= best < names.len() && edit_distance(
                    folded(value),
                    folded((#[trigger] names[best])@),
                ) <= 2 && message == "invalid "@ + kind + " '"@ + value + ("'; did you mean '"@
                    + names[best]@ + "'?"@) && forall|i: int|
                    0 <= i < names.len() ==> edit_distance(folded(value), folded(names[best]@))
                        <= edit_distance(folded(value), folded((#[trigger] names[i])@))
            ||| message == "invalid "@ + kind + " '"@ + value + "'"@ && forall|i: int|
                0 <= i < names.len() ==> edit_distance(folded(value), folded((#[trigger] names[i])@))
                    > 2
        },
{
    reveal(named);
    assert forall|i: int| 0 <= i < names.len() implies (names_match(names, value, i)
        <==> same_but_for_case((#[trigger] names[i])@, value)) by {
        lemma_folded(names[i]@, value);
    }
    if exists|place: int| #[trigger] is_first_match(names, value, place) {
        let place = choose|place: int| #[trigger] is_first_match(names, value, place);
        assert(names_match(names, value, place));
        assert forall|i: int| 0 <= i < place implies !same_but_for_case(
            (#[trigger] names[i])@,
            value,
        ) by {
            assert(!names_match(names, value, i));
        }
        assert(same_but_for_case(names[place]@, value));
    } else {
        assert forall|i: int| 0 <= i < names.len() implies !same_but_for_case(
            (#[trigger] names[i])@,
            value,
        ) by {
            if names_match(names, value, i) {
                lemma_first_match(names, value, i);
            }
        }
        if exists|best: int| #[trigger] is_suggestion(names, value, best) {
            let best = choose|best: int| #[trigger] is_suggestion(names, value, best);
            assert(name_distance(names, value, best) <= 2);
            assert forall|i: int| 0 <= i < names.len() implies edit_distance(
                folded(value),
                folded(names[best]@),
            ) <= edit_distance(folded(value), folded((#[trigger] names[i])@)) by {
                assert(name_distance(names, value, i) >= name_distance(names, value, best));
            }
        } else {
            assert forall|i: int| 0 <= i < names.len() implies edit_distance(
                folded(value),
                folded((#[trigger] names[i])@),
            ) > 2 by {
                if name_distance(names, value, i) <= 2 {
                    lemma_nearest(names, value, names.len() as int);
                    assert(false);
                }
            }
        }
    }
}

proof fn lemma_folded(a: Seq<char>, b: Seq<char>)
    ensures
        folded(a) == folded(b) <==> same_but_for_case(a, b),
{
    let x = vstd::utf8::encode_utf8(a);
    let y = vstd::utf8::encode_utf8(b);
    assert(folded(a).len() == x.len() && folded(b).len() == y.len());
    if folded(a) == folded(b) {
        assert forall|i: int| 0 <= i < x.len() implies (#[trigger] x[i] == y[i] || (65 <= x[i] <= 90
            && y[i] == x[i] + 32) || (65 <= y[i] <= 90 && x[i] == y[i] + 32)) by {
            assert(folded(a)[i] == text::lower_byte(x[i]));
            assert(folded(b)[i] == text::lower_byte(y[i]));
        }
    }
    if same_but_for_case(a, b) {
        assert(folded(a) =~= folded(b)) by {
            assert forall|i: int| 0 <= i < x.len() implies #[trigger] folded(a)[i]
                == folded(b)[i] by {
                assert(x[i] == y[i] || (65 <= x[i] <= 90 && y[i] == x[i] + 32) || (65 <= y[i] <= 90
                    && x[i] == y[i] + 32));
                assert(folded(a)[i] == text::lower_byte(x[i]));
                assert(folded(b)[i] == text::lower_byte(y[i]));
            }
        }
    }
}

proof fn lemma_first_match(names: Seq<&'static str>, value: Seq<char>, i: int)
    requires
        0 <= i < names.len(),
        names_match(names, value, i),
    ensures
        exists|place: int| #[trigger] is_first_match(names, value, place),
    decreases i,
{
    if exists|k: int| 0 <= k < i && #[trigger] names_match(names, value, k) {
        let k = choose|k: int| 0 <= k < i && #[trigger] names_match(names, value, k);
        lemma_first_match(names, value, k);
    } else {
        assert(is_first_match(names, value, i));
    }
}

proof fn lemma_nearest(names: Seq<&'static str>, value: Seq<char>, n: int) -> (best: int)
    requires
        0 < n <= names.len(),
    ensures
        0 <= best < n,
        forall|i: int|
            0 <= i < n ==> #[trigger] name_distance(names, value, i) >= name_distance(
                names,
                value,
                best,
            ),
        forall|i: int|
            0 <= i < best ==> #[trigger] name_distance(names, value, i) > name_distance(
                names,
                value,
                best,
            ),
        n == names.len() && name_distance(names, value, best) <= 2 ==> is_suggestion(
            names,
            value,
            best,
        ),
    decreases n,
{
    if n == 1 {
        0
    } else {
        let before = lemma_nearest(names, value, n - 1);
        if name_distance(names, value, n - 1) < name_distance(names, value, before) {
            n - 1
        } else {
            before
        }
    }
}

/// One byte was put in, taken out or replaced.
pub open spec fn one_edit(a: Seq<u8>, b: Seq<u8>) -> bool {
    ||| exists|p: int, x: u8| 0 <= p <= a.len() && #[trigger] a.insert(p, x) == b
    ||| exists|p: int| 0 <= p < a.len() && #[trigger] a.remove(p) == b
    ||| exists|p: int, x: u8| 0 <= p < a.len() && #[trigger] a.update(p, x) == b
}

/// A text becomes another by so many edits of one byte each.
pub open spec fn edited_to(a: Seq<u8>, b: Seq<u8>, edits: nat) -> bool
    decreases edits,
{
    if edits == 0 {
        a == b
    } else {
        exists|c: Seq<u8>| #[trigger] one_edit(a, c) && edited_to(c, b, (edits - 1) as nat)
    }
}

/// A prefix that two texts share is equally far from anything.
proof fn lemma_shared_prefix(a: Seq<u8>, c: Seq<u8>, b: Seq<u8>, i: nat, j: nat)
    requires
        i <= a.len(),
        i <= c.len(),
        forall|k: int| 0 <= k < i ==> a[k] == c[k],
    ensures
        prefix_distance(a, b, i, j) == prefix_distance(c, b, i, j),
    decreases i + j,
{
    if i > 0 && j > 0 {
        lemma_shared_prefix(a, c, b, (i - 1) as nat, (j - 1) as nat);
        lemma_shared_prefix(a, c, b, i, (j - 1) as nat);
        lemma_shared_prefix(a, c, b, (i - 1) as nat, j);
    }
}

/// A byte put in changes the distance by at most one.
proof fn lemma_insertion(a: Seq<u8>, b: Seq<u8>, p: int, x: u8, i: nat, j: nat)
    requires
        0 <= p <= i <= a.len(),
    ensures
        prefix_distance(a.insert(p, x), b, i + 1, j) <= prefix_distance(a, b, i, j) + 1,
        prefix_distance(a, b, i, j) <= prefix_distance(a.insert(p, x), b, i + 1, j) + 1,
    decreases i + j,
{
    let c = a.insert(p, x);
    if j > 0 {
        lemma_insertion(a, b, p, x, i, (j - 1) as nat);
    }
    if i == p {
        lemma_shared_prefix(a, c, b, i, j);
        if j > 0 {
            lemma_shared_prefix(a, c, b, i, (j - 1) as nat);
        }
    } else {
        lemma_insertion(a, b, p, x, (i - 1) as nat, j);
        assert(c[i as int] == a[i - 1]);
        if j > 0 {
            lemma_insertion(a, b, p, x, (i - 1) as nat, (j - 1) as nat);
        }
    }
}

/// A byte replaced changes the distance by at most one.
proof fn lemma_replacement(a: Seq<u8>, b: Seq<u8>, p: int, x: u8, i: nat, j: nat)
    requires
        0 <= p < i <= a.len(),
    ensures
        prefix_distance(a.update(p, x), b, i, j) <= prefix_distance(a, b, i, j) + 1,
        prefix_distance(a, b, i, j) <= prefix_distance(a.update(p, x), b, i, j) + 1,
    decreases i + j,
{
    let c = a.update(p, x);
    if j > 0 {
        lemma_replacement(a, b, p, x, i, (j - 1) as nat);
        if i == p + 1 {
            lemma_shared_prefix(a, c, b, (i - 1) as nat, j);
            lemma_shared_prefix(a, c, b, (i - 1) as nat, (j - 1) as nat);
        } else {
            lemma_replacement(a, b, p, x, (i - 1) as nat, j);
            lemma_replacement(a, b, p, x, (i - 1) as nat, (j - 1) as nat);
            assert(c[i - 1] == a[i - 1]);
        }
    }
}

/// Law: no text becomes another by fewer edits than their distance: each edit of one byte, put in,
/// taken out or replaced, brings them nearer by one at most.
pub proof fn law_no_fewer_edits_are_enough(a: Seq<u8>, b: Seq<u8>, edits: nat)
    requires
        edited_to(a, b, edits),
    ensures
        edit_distance(a, b) <= edits,
    decreases edits,
{
    if edits == 0 {
        law_edit_distance_zero_iff_equal(a, b);
    } else {
        let c = choose|c: Seq<u8>| #[trigger]
            one_edit(a, c) && edited_to(c, b, (edits - 1) as nat);
        law_no_fewer_edits_are_enough(c, b, (edits - 1) as nat);
        if exists|p: int, x: u8| 0 <= p <= a.len() && #[trigger] a.insert(p, x) == c {
            let (p, x) = choose|p: int, x: u8| 0 <= p <= a.len() && #[trigger] a.insert(p, x) == c;
            lemma_insertion(a, b, p, x, a.len(), b.len());
        } else if exists|p: int| 0 <= p < a.len() && #[trigger] a.remove(p) == c {
            let p = choose|p: int| 0 <= p < a.len() && #[trigger] a.remove(p) == c;
            assert(c.insert(p, a[p]) =~= a);
            lemma_insertion(c, b, p, a[p], c.len(), b.len());
        } else {
            let (p, x) = choose|p: int, x: u8| 0 <= p < a.len() && #[trigger] a.update(p, x) == c;
            lemma_replacement(a, b, p, x, a.len(), b.len());
        }
    }
}

/// What can be done to two texts can be done with one more byte behind both.
proof fn lemma_edited_before(a: Seq<u8>, b: Seq<u8>, edits: nat, x: u8)
    requires
        edited_to(a, b, edits),
    ensures
        edited_to(a.push(x), b.push(x), edits),
    decreases edits,
{
    if edits > 0 {
        let c = choose|c: Seq<u8>| #[trigger]
            one_edit(a, c) && edited_to(c, b, (edits - 1) as nat);
        lemma_edited_before(c, b, (edits - 1) as nat, x);
        assert(one_edit(a.push(x), c.push(x))) by {
            if exists|p: int, y: u8| 0 <= p <= a.len() && #[trigger] a.insert(p, y) == c {
                let (p, y) = choose|p: int, y: u8|
                    0 <= p <= a.len() && #[trigger] a.insert(p, y) == c;
                assert(a.push(x).insert(p, y) =~= c.push(x));
            } else if exists|p: int| 0 <= p < a.len() && #[trigger] a.remove(p) == c {
                let p = choose|p: int| 0 <= p < a.len() && #[trigger] a.remove(p) == c;
                assert(a.push(x).remove(p) =~= c.push(x));
            } else {
                let (p, y) = choose|p: int, y: u8|
                    0 <= p < a.len() && #[trigger] a.update(p, y) == c;
                assert(a.push(x).update(p, y) =~= c.push(x));
            }
        }
    }
}

proof fn lemma_distance_is_reached(a: Seq<u8>, b: Seq<u8>, i: nat, j: nat)
    requires
        i <= a.len(),
        j <= b.len(),
    ensures
        edited_to(a.take(i as int), b.take(j as int), prefix_distance(a, b, i, j)),
    decreases i + j,
{
    let u = a.take(i as int);
    let v = b.take(j as int);
    let n = prefix_distance(a, b, i, j);
    if i == 0 && j == 0 {
        assert(u =~= v);
    } else if i == 0 {
        let before = b.take(j - 1);
        let y = b[j - 1];
        lemma_distance_is_reached(a, b, 0, (j - 1) as nat);
        assert(v =~= before.push(y));
        lemma_edited_before(u, before, (j - 1) as nat, y);
        assert(u.insert(u.len() as int, y) =~= u.push(y));
        assert(one_edit(u, u.push(y)));
    } else if j == 0 {
        let before = a.take(i - 1);
        lemma_distance_is_reached(a, b, (i - 1) as nat, 0);
        assert(u.remove(i - 1) =~= before);
        assert(one_edit(u, before));
    } else {
        let p = a.take(i - 1);
        let q = b.take(j - 1);
        let x = a[i - 1];
        let y = b[j - 1];
        assert(u =~= p.push(x));
        assert(v =~= q.push(y));
        let both = prefix_distance(a, b, (i - 1) as nat, (j - 1) as nat);
        let first = prefix_distance(a, b, (i - 1) as nat, j);
        let second = prefix_distance(a, b, i, (j - 1) as nat);
        lemma_distance_is_reached(a, b, (i - 1) as nat, (j - 1) as nat);
        lemma_distance_is_reached(a, b, (i - 1) as nat, j);
        lemma_distance_is_reached(a, b, i, (j - 1) as nat);
        if n == second + 1 {
            lemma_edited_before(u, q, second, y);
            assert(u.insert(u.len() as int, y) =~= u.push(y));
            assert(one_edit(u, u.push(y)));
        } else if n == first + 1 {
            assert(u.remove(i - 1) =~= p);
            assert(one_edit(u, p));
        } else {
            lemma_edited_before(p, q, both, y);
            if x != y {
                assert(u.update(i - 1, y) =~= p.push(y));
                assert(one_edit(u, p.push(y)));
            }
        }
    }
}

/// Law: a text becomes another by as many edits as their distance, so that the distance is the least
/// number of edits.
pub proof fn law_as_many_edits_are_enough(a: Seq<u8>, b: Seq<u8>)
    ensures
        edited_to(a, b, edit_distance(a, b)),
{
    lemma_distance_is_reached(a, b, a.len(), b.len());
    assert(a.take(a.len() as int) =~= a);
    assert(b.take(b.len() as int) =~= b);
}

} // verus!
