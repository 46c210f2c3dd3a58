//! Small operations on text: slugs, joins, case, decimal numbers and text order.
use vstd::prelude::*;
use vstd::string::*;

verus! {

/// `String::push` appends one character.
pub assume_specification[ String::push ](s: &mut String, c: char)
    ensures
        final(s)@ == old(s)@.push(c),
;

/// The characters of a list of strings.
pub open spec fn texts(list: Seq<String>) -> Seq<Seq<char>> {
    Seq::new(list.len(), |i: int| list[i]@)
}

/// The characters of an optional string.
pub open spec fn opt_text(text: Option<String>) -> Option<Seq<char>> {
    match text {
        Some(s) => Some(s@),
        None => None,
    }
}

/// The characters of an optional string slice.
pub open spec fn opt_str(text: Option<&str>) -> Option<Seq<char>> {
    match text {
        Some(s) => Some(s@),
        None => None,
    }
}

/// The characters of `s`, in order.
pub fn chars_of(s: &str) -> (res: Vec<char>)
    ensures
        res@ == s@,
{
    let mut list: Vec<char> = Vec::new();
    for c in it: s.chars()
        invariant
            it.seq() == s@,
            list@ == it.seq().take(it.index()),
    {
        list.push(c);
    }
    list
}

/// Whether two texts hold the same characters.
pub fn same_text(a: &str, b: &str) -> (res: bool)
    ensures
        res == (a@ == b@),
{
    a.to_owned() == b.to_owned()
}

/// `s` without the `c` characters at its end.
pub open spec fn trimmed_end(s: Seq<char>, c: char) -> Seq<char>
    decreases s.len(),
{
    if s.len() > 0 && s.last() == c {
        trimmed_end(s.drop_last(), c)
    } else {
        s
    }
}

/// The part of `s` behind its last `c`: all of `s` where `c` does not occur.
pub open spec fn after_last(s: Seq<char>, c: char) -> Seq<char>
    decreases s.len(),
{
    if s.len() == 0 || s.last() == c {
        Seq::empty()
    } else {
        after_last(s.drop_last(), c).push(s.last())
    }
}

/// The identifier that a post's address ends in.
pub open spec fn slug_of(url: Seq<char>) -> Seq<char> {
    after_last(trimmed_end(url, '/'), '/')
}

/// The index in `chars[..end]` at which the part behind the last `c` begins.
fn last_part_start(chars: &Vec<char>, end: usize, c: char) -> (start: usize)
    requires
        end <= chars@.len(),
    ensures
        start <= end,
        chars@.subrange(start as int, end as int) == after_last(chars@.take(end as int), c),
{
    let ghost whole = chars@.take(end as int);
    let mut start: usize = end;
    assert(after_last(whole, c) =~= after_last(whole.take(end as int), c) + whole.subrange(
        end as int,
        end as int,
    )) by {
        assert(whole.take(end as int) =~= whole);
    }
    while start > 0 && chars[start - 1] != c
        invariant
            start <= end <= chars@.len(),
            whole == chars@.take(end as int),
            after_last(whole, c) == after_last(whole.take(start as int), c) + whole.subrange(
                start as int,
                end as int,
            ),
        decreases start,
    {
        proof {
            let front = whole.take(start as int);
            assert(front.drop_last() =~= whole.take(start - 1));
            assert(front.last() == chars@[start - 1]);
            assert(after_last(front.drop_last(), c).push(front.last()) + whole.subrange(
                start as int,
                end as int,
            ) =~= after_last(front.drop_last(), c) + whole.subrange(start - 1, end as int));
        }
        start = start - 1;
    }
    proof {
        let front = whole.take(start as int);
        if start > 0 {
            assert(front.last() == c);
        }
        assert(after_last(front, c) =~= Seq::<char>::empty());
        assert(chars@.subrange(start as int, end as int) =~= whole.subrange(
            start as int,
            end as int,
        ));
    }
    start
}

/// The part of `s` behind its last `c`.
pub fn last_part(s: &str, c: char) -> (res: String)
    ensures
        res@ == after_last(s@, c),
{
    let chars = chars_of(s);
    let end = chars.len();
    let start = last_part_start(&chars, end, c);
    assert(chars@.take(end as int) =~= s@);
    s.substring_char(start, end).to_owned()
}

/// The identifier of the post at `url`: what stands behind the last `/`, once the
/// slashes at the end are gone.
pub fn slug(url: &str) -> (res: String)
    ensures
        res@ == slug_of(url@),
{
    let chars = chars_of(url);
    let mut end: usize = chars.len();
    assert(chars@.take(end as int) =~= url@);
    while end > 0 && chars[end - 1] == '/'
        invariant
            end <= chars@.len(),
            trimmed_end(chars@.take(end as int), '/') == trimmed_end(url@, '/'),
        decreases end,
    {
        assert(chars@.take(end as int).drop_last() =~= chars@.take(end - 1));
        end = end - 1;
    }
    let start = last_part_start(&chars, end, '/');
    url.substring_char(start, end).to_owned()
}

proof fn lemma_after_last_free(s: Seq<char>, c: char)
    ensures
        !after_last(s, c).contains(c),
    decreases s.len(),
{
    if s.len() > 0 && s.last() != c {
        lemma_after_last_free(s.drop_last(), c);
        let head = after_last(s.drop_last(), c);
        let all = head.push(s.last());
        if all.contains(c) {
            let i = choose|i: int| 0 <= i < all.len() && all[i] == c;
            assert(i < head.len());
            assert(head[i] == c);
            assert(head.contains(c));
        }
    }
}

proof fn lemma_after_last_tail(front: Seq<char>, tail: Seq<char>, c: char)
    requires
        !tail.contains(c),
    ensures
        after_last(front.push(c) + tail, c) == tail,
    decreases tail.len(),
{
    let all = front.push(c) + tail;
    if tail.len() == 0 {
        assert(all.last() == c);
        assert(after_last(all, c) =~= tail);
    } else {
        assert(tail[tail.len() - 1] != c) by {
            if tail[tail.len() - 1] == c {
                assert(tail.contains(c));
            }
        }
        assert(!tail.drop_last().contains(c)) by {
            if tail.drop_last().contains(c) {
                let i = choose|i: int| 0 <= i < tail.drop_last().len() && tail.drop_last()[i] == c;
                assert(tail[i] == c);
            }
        }
        lemma_after_last_tail(front, tail.drop_last(), c);
        assert(all.drop_last() =~= front.push(c) + tail.drop_last());
        assert(tail.drop_last().push(tail.last()) =~= tail);
    }
}

/// An identifier holds no slash.
pub proof fn slug_has_no_slash(url: Seq<char>)
    ensures
        !slug_of(url).contains('/'),
{
    lemma_after_last_free(trimmed_end(url, '/'), '/');
}

/// A slash at the end of an address does not change its identifier.
pub proof fn slug_ignores_trailing_slash(url: Seq<char>)
    ensures
        slug_of(url.push('/')) == slug_of(url),
{
    assert(url.push('/').drop_last() =~= url);
}

/// The identifier of the post `name` under any address is `name`.
pub proof fn slug_of_post(site: Seq<char>, name: Seq<char>)
    requires
        name.len() > 0,
        !name.contains('/'),
    ensures
        slug_of(site.push('/') + name) == name,
{
    let url = site.push('/') + name;
    assert(url.last() == name[name.len() - 1]);
    assert(name.contains(name[name.len() - 1]));
    lemma_after_last_tail(site, name, '/');
}

/// `parts` one after another, with `separator` between neighbours.
pub open spec fn joined(parts: Seq<Seq<char>>, separator: Seq<char>) -> Seq<char>
    decreases parts.len(),
{
    if parts.len() == 0 {
        Seq::empty()
    } else if parts.len() == 1 {
        parts[0]
    } else {
        joined(parts.drop_last(), separator) + separator + parts.last()
    }
}

/// Puts `parts` one after another, with `separator` between neighbours.
pub fn join(parts: &Vec<String>, separator: &str) -> (res: String)
    ensures
        res@ == joined(texts(parts@), separator@),
{
    let mut res = String::new();
    let mut i: usize = 0;
    assert(texts(parts@).take(0) =~= Seq::<Seq<char>>::empty());
    while i < parts.len()
        invariant
            i <= parts@.len(),
            res@ == joined(texts(parts@).take(i as int), separator@),
        decreases parts@.len() - i,
    {
        if i > 0 {
            res.append(separator);
        }
        res.append(parts[i].as_str());
        proof {
            let longer = texts(parts@).take(i + 1);
            assert(longer.drop_last() =~= texts(parts@).take(i as int));
            assert(longer.last() == parts@[i as int]@);
            if i == 0 {
                assert(Seq::<char>::empty() + parts@[0]@ =~= parts@[0]@);
            }
        }
        i = i + 1;
    }
    assert(texts(parts@).take(i as int) =~= texts(parts@));
    res
}

/// `c`, in lower case if it is one of the letters `A` to `Z`.
pub open spec fn lower_char(c: char) -> char {
    if 'A' <= c && c <= 'Z' {
        (c as u32 + 32) as char
    } else {
        c
    }
}

/// `s` with the letters `A` to `Z` in lower case.
pub open spec fn lowered(s: Seq<char>) -> Seq<char> {
    Seq::new(s.len(), |i: int| lower_char(s[i]))
}

/// Turns the letters `A` to `Z` of `s` to lower case.
pub fn lower(s: &str) -> (res: String)
    ensures
        res@ == lowered(s@),
{
    let chars = chars_of(s);
    let mut res = String::new();
    let mut i: usize = 0;
    while i < chars.len()
        invariant
            i <= chars@.len(),
            chars@ == s@,
            res@ == lowered(s@).take(i as int),
        decreases chars@.len() - i,
    {
        let c = chars[i];
        if 'A' <= c && c <= 'Z' {
            res.push(((c as u8) + 32) as char);
        } else {
            res.push(c);
        }
        assert(lowered(s@).take(i + 1) =~= lowered(s@).take(i as int).push(lower_char(c)));
        i = i + 1;
    }
    assert(lowered(s@).take(i as int) =~= lowered(s@));
    res
}

/// The decimal digit of a number below ten.
pub open spec fn digit_char(n: nat) -> char {
    (n + '0' as u32) as char
}

/// A natural number in decimal digits.
pub open spec fn decimal(n: nat) -> Seq<char>
    decreases n,
{
    if n < 10 {
        seq![digit_char(n)]
    } else {
        decimal(n / 10).push(digit_char(n % 10))
    }
}

/// An integer in decimal digits, with a minus sign where it is negative.
pub open spec fn signed_decimal(n: int) -> Seq<char> {
    if n < 0 {
        seq!['-'] + decimal((-n) as nat)
    } else {
        decimal(n as nat)
    }
}

/// Appends `n` in decimal digits.
pub fn append_decimal(out: &mut String, n: u64)
    ensures
        final(out)@ == old(out)@ + decimal(n as nat),
    decreases n,
{
    if n >= 10 {
        append_decimal(out, n / 10);
    }
    out.push((48u8 + (n % 10) as u8) as char);
    assert(out@ =~= old(out)@ + decimal(n as nat));
}

/// Appends `n` in decimal digits, with a minus sign where it is negative.
pub fn append_signed(out: &mut String, n: i64)
    ensures
        final(out)@ == old(out)@ + signed_decimal(n as int),
{
    if n < 0 {
        out.push('-');
        let size: u64 = (-(n + 1)) as u64 + 1;
        append_decimal(out, size);
        assert(out@ =~= old(out)@ + (seq!['-'] + decimal((-n) as nat)));
    } else {
        append_decimal(out, n as u64);
    }
}

/// Whether `a` stands behind `b` in the order of texts by their characters' code points,
/// where a text stands before its continuations.
pub open spec fn comes_after(a: Seq<char>, b: Seq<char>) -> bool
    decreases a.len(),
{
    if a.len() == 0 {
        false
    } else if b.len() == 0 {
        true
    } else if a[0] == b[0] {
        comes_after(a.drop_first(), b.drop_first())
    } else {
        a[0] > b[0]
    }
}

/// Whether `a` stands behind `b` in the order of texts.
pub fn is_after(a: &str, b: &str) -> (res: bool)
    ensures
        res == comes_after(a@, b@),
{
    let left = chars_of(a);
    let right = chars_of(b);
    let mut i: usize = 0;
    assert(left@.skip(0) =~= a@);
    assert(right@.skip(0) =~= b@);
    while i < left.len() && i < right.len() && left[i] == right[i]
        invariant
            i <= left@.len(),
            i <= right@.len(),
            comes_after(a@, b@) == comes_after(left@.skip(i as int), right@.skip(i as int)),
        decreases left@.len() - i,
    {
        assert(left@.skip(i as int).drop_first() =~= left@.skip(i + 1));
        assert(right@.skip(i as int).drop_first() =~= right@.skip(i + 1));
        i = i + 1;
    }
    if i >= left.len() {
        false
    } else if i >= right.len() {
        true
    } else {
        left[i] > right[i]
    }
}

/// No text stands behind itself, and of two different texts exactly one stands behind the other.
pub proof fn text_order_is_strict(a: Seq<char>, b: Seq<char>)
    ensures
        !comes_after(a, a),
        comes_after(a, b) ==> !comes_after(b, a),
        comes_after(a, b) || comes_after(b, a) || a == b,
    decreases a.len(),
{
    if a.len() > 0 && b.len() > 0 {
        text_order_is_strict(a.drop_first(), b.drop_first());
        if a[0] == b[0] && a.drop_first() == b.drop_first() {
            assert(a =~= seq![a[0]] + a.drop_first());
            assert(b =~= seq![b[0]] + b.drop_first());
        }
    } else if a.len() > 0 {
        text_order_is_strict(a.drop_first(), b);
    } else if b.len() == 0 {
        assert(a =~= b);
    }
}

/// The texts of strings are those of the strings themselves, one by one and in order.
pub proof fn texts_are_kept(list: Seq<String>, owned: Option<String>, slice: Option<&str>)
    ensures
        texts(list).len() == list.len(),
        forall|i: int| 0 <= i < list.len() ==> #[trigger] texts(list)[i] == list[i]@,
        owned matches Some(s) ==> opt_text(owned) == Some(s@),
        owned is None ==> opt_text(owned) is None,
        slice matches Some(s) ==> opt_str(slice) == Some(s@),
        slice is None ==> opt_str(slice) is None,
{
}

proof fn lemma_after_last_whole(s: Seq<char>, c: char)
    requires
        !s.contains(c),
    ensures
        after_last(s, c) == s,
    decreases s.len(),
{
    if s.len() > 0 {
        assert(s[s.len() - 1] != c) by {
            if s[s.len() - 1] == c {
                assert(s.contains(c));
            }
        }
        assert(!s.drop_last().contains(c)) by {
            if s.drop_last().contains(c) {
                let i = choose|i: int| 0 <= i < s.drop_last().len() && s.drop_last()[i] == c;
                assert(s[i] == c);
            }
        }
        lemma_after_last_whole(s.drop_last(), c);
        assert(s.drop_last().push(s.last()) =~= s);
    } else {
        assert(after_last(s, c) =~= s);
    }
}

/// What stands behind the last `c` of a text holds no `c`, and nothing of it is lost: it is what
/// follows any front that ends in `c`, and the whole text where there is no `c`.
pub proof fn last_part_is_what_follows(front: Seq<char>, tail: Seq<char>, c: char)
    requires
        !tail.contains(c),
    ensures
        after_last(front.push(c) + tail, c) == tail,
        after_last(tail, c) == tail,
{
    lemma_after_last_tail(front, tail, c);
    lemma_after_last_whole(tail, c);
}

/// An address without a slash is its own identifier.
pub proof fn slug_of_plain_text(name: Seq<char>)
    requires
        !name.contains('/'),
    ensures
        slug_of(name) == name,
{
    if name.len() > 0 {
        assert(name.contains(name[name.len() - 1]));
    }
    lemma_after_last_whole(name, '/');
}

/// Texts joined in two parts, with a separator between the parts, are the texts joined in one
/// go; a single text is joined as it stands, and of no texts nothing comes.
pub proof fn texts_join_in_parts(
    first: Seq<Seq<char>>,
    second: Seq<Seq<char>>,
    separator: Seq<char>,
    single: Seq<char>,
)
    ensures
        first.len() > 0 && second.len() > 0 ==> joined(first + second, separator) == joined(
            first,
            separator,
        ) + separator + joined(second, separator),
        joined(seq![single], separator) == single,
        joined(Seq::empty(), separator).len() == 0,
    decreases second.len(),
{
    if first.len() > 0 && second.len() > 0 {
        let all = first + second;
        let front = second.drop_last();
        assert(all.drop_last() =~= first + front);
        assert(all.last() == second.last());
        if front.len() == 0 {
            assert(first + front =~= first);
        } else {
            texts_join_in_parts(first, front, separator, single);
        }
        assert(joined(all, separator) =~= joined(first, separator) + separator + joined(
            second,
            separator,
        ));
    }
}

/// Lower case keeps the length of a text and every character but the letters `A` to `Z`, which
/// become the letters `a` to `z` at the same place of the alphabet.
pub proof fn lower_case_touches_capitals_alone(s: Seq<char>, i: int)
    requires
        0 <= i < s.len(),
    ensures
        lowered(s).len() == s.len(),
        'A' <= s[i] && s[i] <= 'Z' ==> lowered(s)[i] as u32 - 'a' as u32 == s[i] as u32
            - 'A' as u32,
        !('A' <= s[i] && s[i] <= 'Z') ==> lowered(s)[i] == s[i],
{
}

/// The number that a row of decimal digits stands for.
pub open spec fn digits_value(s: Seq<char>) -> int
    decreases s.len(),
{
    if s.len() == 0 {
        0
    } else {
        10 * digits_value(s.drop_last()) + (s.last() as u32 - '0' as u32)
    }
}

/// Whether a text is made of decimal digits.
pub open spec fn is_digits(s: Seq<char>) -> bool {
    forall|i: int| 0 <= i < s.len() ==> '0' <= #[trigger] s[i] && s[i] <= '9'
}

/// The digits of a number stand for that number, and there is no idle zero in front.
pub proof fn decimals_read_back(n: nat)
    ensures
        digits_value(decimal(n)) == n,
        is_digits(decimal(n)),
        decimal(n).len() > 0,
        n > 0 ==> decimal(n)[0] != '0',
        n == 0 ==> decimal(n).len() == 1,
    decreases n,
{
    let s = decimal(n);
    if n < 10 {
        assert(s.drop_last() =~= Seq::<char>::empty());
        assert(digits_value(s.drop_last()) == 0);
    } else {
        decimals_read_back(n / 10);
        assert(s.drop_last() =~= decimal(n / 10));
        assert forall|i: int| 0 <= i < s.len() implies '0' <= #[trigger] s[i] && s[i] <= '9' by {
            if i < s.len() - 1 {
                assert(s[i] == decimal(n / 10)[i]);
            }
        }
        assert(s[0] == decimal(n / 10)[0]);
    }
}

/// A negative number shows a minus sign and then the digits of its size; any other number shows
/// its digits alone.
pub proof fn signed_decimals_read_back(n: int)
    ensures
        n >= 0 ==> is_digits(signed_decimal(n)) && digits_value(signed_decimal(n)) == n
            && signed_decimal(n) == decimal(n as nat),
        n < 0 ==> signed_decimal(n).len() > 0 && signed_decimal(n)[0] == '-' && is_digits(
            signed_decimal(n).skip(1),
        ) && digits_value(signed_decimal(n).skip(1)) == -n && signed_decimal(n).skip(1) == decimal(
            (-n) as nat,
        ),
{
    if n >= 0 {
        decimals_read_back(n as nat);
    } else {
        decimals_read_back((-n) as nat);
        assert(signed_decimal(n).skip(1) =~= decimal((-n) as nat));
    }
}

/// The first characters in which two texts differ decide which of them stands behind the other,
/// and a text stands behind each of its beginnings.
pub proof fn first_difference_decides(common: Seq<char>, a: Seq<char>, b: Seq<char>)
    ensures
        a.len() > 0 && b.len() > 0 && a[0] != b[0] ==> comes_after(common + a, common + b) == (a[0]
            > b[0]),
        a.len() > 0 ==> comes_after(common + a, common),
        !comes_after(common, common + a),
    decreases common.len(),
{
    if common.len() == 0 {
        assert(common + a =~= a);
        assert(common + b =~= b);
    } else {
        first_difference_decides(common.drop_first(), a, b);
        assert((common + a).drop_first() =~= common.drop_first() + a);
        assert((common + b).drop_first() =~= common.drop_first() + b);
    }
}

/// The part of `s` between two `c`, counted from the end: part 0 stands behind the last `c`,
/// part 1 between the last two, and so on.
pub open spec fn part_from_end(s: Seq<char>, c: char, k: nat) -> Seq<char>
    decreases s.len(),
{
    if s.len() == 0 {
        Seq::empty()
    } else if s.last() == c {
        if k == 0 {
            Seq::empty()
        } else {
            part_from_end(s.drop_last(), c, (k - 1) as nat)
        }
    } else if k == 0 {
        part_from_end(s.drop_last(), c, 0).push(s.last())
    } else {
        part_from_end(s.drop_last(), c, k)
    }
}

/// Behind the last `c` stands part 0, and the parts in front of it are those of the rest.
pub proof fn parts_count_from_the_end(front: Seq<char>, tail: Seq<char>, c: char)
    requires
        !tail.contains(c),
    ensures
        part_from_end(front.push(c) + tail, c, 0) == tail,
        forall|k: nat|
            k > 0 ==> #[trigger] part_from_end(front.push(c) + tail, c, k) == part_from_end(
                front,
                c,
                (k - 1) as nat,
            ),
    decreases tail.len(),
{
    let all = front.push(c) + tail;
    if tail.len() == 0 {
        assert(all =~= front.push(c));
        assert(all.last() == c);
        assert(all.drop_last() =~= front);
        assert(part_from_end(all, c, 0) =~= tail);
    } else {
        let short = tail.drop_last();
        assert(tail[tail.len() - 1] != c) by {
            if tail[tail.len() - 1] == c {
                assert(tail.contains(c));
            }
        }
        assert(!short.contains(c)) by {
            if short.contains(c) {
                let i = choose|i: int| 0 <= i < short.len() && short[i] == c;
                assert(tail[i] == c);
            }
        }
        parts_count_from_the_end(front, short, c);
        assert(all.drop_last() =~= front.push(c) + short);
        assert(all.last() == tail.last());
        assert(short.push(tail.last()) =~= tail);
        assert forall|k: nat| k > 0 implies #[trigger] part_from_end(all, c, k) == part_from_end(
            front,
            c,
            (k - 1) as nat,
        ) by {
            assert(part_from_end(front.push(c) + short, c, k) == part_from_end(
                front,
                c,
                (k - 1) as nat,
            ));
        }
    }
}

} // verus!
