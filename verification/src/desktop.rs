//! Which desktops type through the portal.
use vstd::prelude::*;

verus! {

/// An ASCII capital as its small letter, any other character as it is.
pub open spec fn ascii_lower(c: char) -> char {
    if 'A' <= c <= 'Z' {
        ((c as u32) + 32) as char
    } else {
        c
    }
}

/// Whether two texts are the same but for the case of ASCII letters.
pub open spec fn same_ignoring_case(a: Seq<char>, b: Seq<char>) -> bool {
    a.len() == b.len() && forall|i: int|
        0 <= i < a.len() ==> ascii_lower(#[trigger] a[i]) == ascii_lower(b[i])
}

/// Whether a colon-separated list has an entry from `start` to `end`.
pub open spec fn is_entry(list: Seq<char>, start: int, end: int) -> bool {
    &&& 0 <= start <= end <= list.len()
    &&& start == 0 || list[start - 1] == ':'
    &&& end == list.len() || list[end] == ':'
    &&& forall|i: int| start <= i < end ==> list[i] != ':'
}

/// Whether a colon-separated list has an entry with this name, in any case.
pub open spec fn lists(list: Seq<char>, name: Seq<char>) -> bool {
    exists|start: int, end: int| #[trigger]
        is_entry(list, start, end) && same_ignoring_case(list.subrange(start, end), name)
}

/// The names of a desktop that types through the portal.
pub open spec fn is_portal_desktop(desktop: Seq<char>) -> bool {
    lists(desktop, "KDE"@) || lists(desktop, "GNOME"@)
}

/// The characters of a text.
fn characters(text: &str) -> (chars: Vec<char>)
    ensures
        chars@ == text@,
{
    let length = text.unicode_len();
    let mut chars: Vec<char> = Vec::new();
    let mut i: usize = 0;
    while i < length
        invariant
            i <= length,
            length == text@.len(),
            chars@ =~= text@.take(i as int),
        decreases length - i,
    {
        chars.push(text.get_char(i));
        i += 1;
    }
    chars
}

/// An ASCII capital as its small letter, any other character as it is.
fn to_ascii_lower(c: char) -> (lower: char)
    ensures
        lower == ascii_lower(c),
{
    if 'A' <= c && c <= 'Z' {
        (c as u8 + 32) as char
    } else {
        c
    }
}

/// Whether the characters from `start` to `end` are a name, in any case.
fn entry_is(chars: &Vec<char>, start: usize, end: usize, name: &Vec<char>) -> (same: bool)
    requires
        start <= end <= chars@.len(),
    ensures
        same == same_ignoring_case(chars@.subrange(start as int, end as int), name@),
{
    let ghost entry = chars@.subrange(start as int, end as int);
    if end - start != name.len() {
        return false;
    }
    let mut i: usize = 0;
    while i < name.len()
        invariant
            i <= name@.len(),
            start <= end <= chars@.len(),
            end - start == name@.len(),
            entry == chars@.subrange(start as int, end as int),
            forall|j: int| 0 <= j < i ==> ascii_lower(#[trigger] entry[j]) == ascii_lower(name@[j]),
        decreases name@.len() - i,
    {
        if to_ascii_lower(chars[start + i]) != to_ascii_lower(name[i]) {
            assert(ascii_lower(entry[i as int]) != ascii_lower(name@[i as int]));
            return false;
        }
        i += 1;
    }
    true
}

/// Whether a colon-separated list has an entry with this name, in any case.
fn has_entry(list: &str, name: &str) -> (found: bool)
    ensures
        found == lists(list@, name@),
{
    let chars = characters(list);
    let name_chars = characters(name);
    let mut start: usize = 0;
    let mut end: usize = 0;
    loop
        invariant
            chars@ == list@,
            name_chars@ == name@,
            start <= end <= chars@.len(),
            start == 0 || chars@[start - 1] == ':',
            forall|i: int| start <= i < end ==> chars@[i] != ':',
            forall|s: int, e: int| #[trigger]
                is_entry(list@, s, e) && s < start ==> !same_ignoring_case(
                    list@.subrange(s, e),
                    name@,
                ),
        decreases chars@.len() - end,
    {
        if end == chars.len() || chars[end] == ':' {
            assert(is_entry(list@, start as int, end as int));
            if entry_is(&chars, start, end, &name_chars) {
                return true;
            }
            assert forall|s: int, e: int| #[trigger]
                is_entry(list@, s, e) && s < end + 1 implies !same_ignoring_case(
                list@.subrange(s, e),
                name@,
            ) by {
                if s >= start {
                    assert(s == start);
                    assert(e == end);
                }
            }
            if end == chars.len() {
                return false;
            }
            start = end + 1;
        }
        end += 1;
    }
}

/// Whether the desktop that `XDG_CURRENT_DESKTOP` names types through the portal.
pub fn uses_portal_for(desktop: &str) -> (uses: bool)
    ensures
        uses == is_portal_desktop(desktop@),
{
    has_entry(desktop, "KDE") || has_entry(desktop, "GNOME")
}

/// The name of the file that keeps a desktop's permission.
pub open spec fn token_file(desktop: Seq<char>) -> Seq<char> {
    if lists(desktop, "KDE"@) {
        "portal-keyboard-kde.token"@
    } else {
        "portal-keyboard-gnome.token"@
    }
}

/// The name of the file that keeps a desktop's permission.
pub fn token_file_name(desktop: &str) -> (name: &'static str)
    ensures
        name@ == token_file(desktop@),
{
    if has_entry(desktop, "KDE") {
        "portal-keyboard-kde.token"
    } else {
        "portal-keyboard-gnome.token"
    }
}

/// A list without a colon has one entry: the whole of it.
pub proof fn law_single_name(list: Seq<char>, name: Seq<char>)
    requires
        !list.contains(':'),
    ensures
        lists(list, name) <==> same_ignoring_case(list, name),
{
    let end = list.len() as int;
    assert(list.subrange(0, end) =~= list);
    assert(is_entry(list, 0, end));
    assert forall|s: int, e: int| #[trigger] is_entry(list, s, e) implies s == 0 && e == end by {
        if s > 0 {
            assert(list.contains(list[s - 1]));
        }
        if e < end {
            assert(list.contains(list[e]));
        }
    }
}

/// What a list names in its part before a colon.
proof fn lemma_entry_before(left: Seq<char>, right: Seq<char>, start: int, end: int)
    requires
        end <= left.len(),
    ensures
        is_entry(left, start, end) <==> is_entry(left + seq![':'] + right, start, end),
        is_entry(left, start, end) ==> left.subrange(start, end) == (left + seq![':']
            + right).subrange(start, end),
{
    let list = left + seq![':'] + right;
    assert(list[left.len() as int] == ':');
    assert(list.take(left.len() as int) =~= left);
    if is_entry(left, start, end) {
        assert(left.subrange(start, end) =~= list.subrange(start, end));
    }
    if is_entry(list, start, end) {
        assert forall|i: int| start <= i < end implies left[i] != ':' by {
            assert(list[i] != ':');
        }
    }
}

/// What a list names in its part after a colon.
proof fn lemma_entry_after(left: Seq<char>, right: Seq<char>, start: int, end: int)
    requires
        0 <= start,
    ensures
        is_entry(right, start, end) <==> is_entry(
            left + seq![':'] + right,
            left.len() + 1 + start,
            left.len() + 1 + end,
        ),
        is_entry(right, start, end) ==> right.subrange(start, end) == (left + seq![':']
            + right).subrange(left.len() + 1 + start, left.len() + 1 + end),
{
    let list = left + seq![':'] + right;
    let n = left.len() + 1;
    assert(list[n - 1] == ':');
    assert(0 < start <= right.len() ==> list[n + start - 1] == right[start - 1]);
    assert(0 <= end < right.len() ==> list[n + end] == right[end]);
    if is_entry(right, start, end) {
        assert(right.subrange(start, end) =~= list.subrange(n + start, n + end));
        assert forall|i: int| n + start <= i < n + end implies list[i] != ':' by {
            assert(right[i - n] != ':');
        }
    }
    if is_entry(list, n + start, n + end) {
        assert forall|i: int| start <= i < end implies right[i] != ':' by {
            assert(list[n + i] != ':');
        }
    }
}

/// A list names what its parts before and after a colon name.
pub proof fn law_entries_are_independent(left: Seq<char>, right: Seq<char>, name: Seq<char>)
    ensures
        lists(left + seq![':'] + right, name) <==> lists(left, name) || lists(right, name),
{
    let list = left + seq![':'] + right;
    let n = left.len() + 1;
    if lists(left, name) {
        let (s, e) = choose|s: int, e: int| #[trigger]
            is_entry(left, s, e) && same_ignoring_case(left.subrange(s, e), name);
        lemma_entry_before(left, right, s, e);
    }
    if lists(right, name) {
        let (s, e) = choose|s: int, e: int| #[trigger]
            is_entry(right, s, e) && same_ignoring_case(right.subrange(s, e), name);
        lemma_entry_after(left, right, s, e);
    }
    if lists(list, name) {
        let (s, e) = choose|s: int, e: int| #[trigger]
            is_entry(list, s, e) && same_ignoring_case(list.subrange(s, e), name);
        assert(list[n - 1] == ':');
        if s < n {
            assert(e < n);
            lemma_entry_before(left, right, s, e);
        } else {
            lemma_entry_after(left, right, s - n, e - n);
        }
    }
}

/// Sameness but for case goes both ways and carries over.
proof fn lemma_same_ignoring_case(a: Seq<char>, b: Seq<char>, name: Seq<char>)
    requires
        same_ignoring_case(a, b),
    ensures
        same_ignoring_case(b, a),
        lists(a, name) ==> lists(b, name),
{
    assert forall|i: int| 0 <= i < b.len() implies ascii_lower(#[trigger] b[i]) == ascii_lower(
        a[i],
    ) by {
        assert(ascii_lower(a[i]) == ascii_lower(b[i]));
    }
    if lists(a, name) {
        let (s, e) = choose|s: int, e: int| #[trigger]
            is_entry(a, s, e) && same_ignoring_case(a.subrange(s, e), name);
        assert forall|i: int| 0 <= i < b.len() implies (#[trigger] b[i] == ':') == (a[i] == ':') by {
            assert(ascii_lower(a[i]) == ascii_lower(b[i]));
        }
        assert(is_entry(b, s, e));
        let entry = b.subrange(s, e);
        assert forall|i: int| 0 <= i < entry.len() implies ascii_lower(#[trigger] entry[i])
            == ascii_lower(name[i]) by {
            assert(ascii_lower(a[s + i]) == ascii_lower(b[s + i]));
            assert(a.subrange(s, e)[i] == a[s + i]);
        }
    }
}

/// The case of ASCII letters in a list does not matter.
pub proof fn law_case_does_not_matter(a: Seq<char>, b: Seq<char>, name: Seq<char>)
    requires
        same_ignoring_case(a, b),
    ensures
        lists(a, name) == lists(b, name),
{
    lemma_same_ignoring_case(a, b, name);
    lemma_same_ignoring_case(b, a, name);
}

/// A desktop that types through the portal keeps its permission in a file of its
/// own: one for KDE, another for GNOME.
pub proof fn law_token_files(desktop: Seq<char>)
    requires
        is_portal_desktop(desktop),
    ensures
        token_file(desktop) == "portal-keyboard-kde.token"@ <==> lists(desktop, "KDE"@),
        token_file(desktop) == "portal-keyboard-gnome.token"@ ==> lists(desktop, "GNOME"@),
{
    reveal_strlit("portal-keyboard-kde.token");
    reveal_strlit("portal-keyboard-gnome.token");
    assert("portal-keyboard-kde.token"@.len() != "portal-keyboard-gnome.token"@.len());
}

/// Whether two characters are the same, or the two cases of one ASCII letter.
pub open spec fn same_letter(a: char, b: char) -> bool {
    ||| a == b
    ||| 'A' <= a <= 'Z' && b as int == a as int + 32
    ||| 'A' <= b <= 'Z' && a as int == b as int + 32
}

/// Two texts are the same but for case exactly where they have the same length and at each
/// place the same letter.
pub proof fn law_case_is_that_of_letters(a: Seq<char>, b: Seq<char>)
    ensures
        same_ignoring_case(a, b) <==> a.len() == b.len() && forall|i: int|
            0 <= i < a.len() ==> same_letter(#[trigger] a[i], b[i]),
{
    assert forall|x: char, y: char|
        #![trigger ascii_lower(x), ascii_lower(y)]
        ascii_lower(x) == ascii_lower(y) <==> same_letter(x, y) by {}
    if same_ignoring_case(a, b) {
        assert forall|i: int| 0 <= i < a.len() implies same_letter(#[trigger] a[i], b[i]) by {
            assert(ascii_lower(a[i]) == ascii_lower(b[i]));
        }
    }
}

/// A desktop types through the portal exactly where one of its names is KDE or GNOME, in
/// whatever case: a single name where it is one of the two, a list where one of its parts
/// does.
pub proof fn law_portal_desktops(left: Seq<char>, right: Seq<char>, name: Seq<char>)
    requires
        !name.contains(':'),
    ensures
        is_portal_desktop(left + seq![':'] + right) <==> is_portal_desktop(left)
            || is_portal_desktop(right),
        is_portal_desktop(name) <==> {
            ||| name.len() == 3 && same_letter(name[0], 'K') && same_letter(name[1], 'D')
                && same_letter(name[2], 'E')
            ||| name.len() == 5 && same_letter(name[0], 'G') && same_letter(name[1], 'N')
                && same_letter(name[2], 'O') && same_letter(name[3], 'M') && same_letter(
                name[4],
                'E',
            )
        },
{
    law_entries_are_independent(left, right, "KDE"@);
    law_entries_are_independent(left, right, "GNOME"@);
    law_single_name(name, "KDE"@);
    law_single_name(name, "GNOME"@);
    law_case_is_that_of_letters(name, "KDE"@);
    law_case_is_that_of_letters(name, "GNOME"@);
    reveal_strlit("KDE");
    reveal_strlit("GNOME");
}

/// A list keeps its permission in KDE's file exactly where one of its names is KDE, in
/// whatever case, and else in GNOME's.
pub proof fn law_token_file_follows_names(left: Seq<char>, right: Seq<char>, name: Seq<char>)
    requires
        !name.contains(':'),
    ensures
        ({
            let kde = "portal-keyboard-kde.token"@;
            let gnome = "portal-keyboard-gnome.token"@;
            &&& kde != gnome
            &&& token_file(left + seq![':'] + right) == if token_file(left) == kde || token_file(
                right,
            ) == kde {
                kde
            } else {
                gnome
            }
            &&& token_file(name) == if name.len() == 3 && same_letter(name[0], 'K') && same_letter(
                name[1],
                'D',
            ) && same_letter(name[2], 'E') {
                kde
            } else {
                gnome
            }
        }),
{
    law_entries_are_independent(left, right, "KDE"@);
    law_single_name(name, "KDE"@);
    law_case_is_that_of_letters(name, "KDE"@);
    reveal_strlit("KDE");
    reveal_strlit("portal-keyboard-kde.token");
    reveal_strlit("portal-keyboard-gnome.token");
    assert("portal-keyboard-kde.token"@.len() != "portal-keyboard-gnome.token"@.len());
}

} // verus!
