//! Recognising an HTTP proxy request from the first bytes of a connection.

use std::borrow::Cow;
use vstd::prelude::*;
use vstd::utf8::*;

verus! {

/// The text that `String::from_utf8_lossy` makes of a byte sequence.
pub uninterp spec fn lossy_text(bytes: Seq<u8>) -> Seq<char>;

/// `String::from_utf8_lossy` decodes UTF-8 and puts one replacement character
/// in the place of each sequence of bytes that is not valid. The contract names
/// the text and claims of it that it has no more characters than there are
/// bytes, that valid UTF-8 is decoded as it stands, that this holds of a valid
/// prefix too, whatever follows it, and that it holds of a run of ASCII bytes
/// wherever it stands: the bytes before it and the bytes after it are decoded on
/// their own. How many bytes one replacement character stands for is left
/// unsaid.
pub assume_specification<'a>[ String::from_utf8_lossy ](v: &'a [u8]) -> (text: Cow<'a, str>)
    ensures
        text@ == lossy_text(v@),
        text@.len() <= v@.len(),
        valid_utf8(v@) ==> text@ == decode_utf8(v@),
        forall|i: int|
            0 <= i <= v@.len() && #[trigger] valid_utf8(v@.take(i)) ==> text@ == decode_utf8(
                v@.take(i),
            ) + lossy_text(v@.skip(i)),
        forall|i: int, j: int|
            0 <= i < j <= v@.len() && #[trigger] is_ascii_run(v@.subrange(i, j)) ==> text@
                == lossy_text(v@.take(i)) + ascii_text(v@.subrange(i, j)) + (if j < v@.len() {
                lossy_text(v@.skip(j))
            } else {
                Seq::empty()
            }),
;

/// All bytes are ASCII.
pub open spec fn is_ascii_run(bytes: Seq<u8>) -> bool {
    forall|i: int| 0 <= i < bytes.len() ==> #[trigger] bytes[i] < 0x80
}

/// The characters that ASCII bytes stand for.
pub open spec fn ascii_text(bytes: Seq<u8>) -> Seq<char> {
    Seq::new(bytes.len(), |i: int| bytes[i] as char)
}

/// The characters with the Unicode property `White_Space`.
pub open spec fn is_white_space(c: char) -> bool {
    ||| '\u{9}' <= c <= '\u{d}'
    ||| c == ' '
    ||| c == '\u{85}'
    ||| c == '\u{a0}'
    ||| c == '\u{1680}'
    ||| '\u{2000}' <= c <= '\u{200a}'
    ||| c == '\u{2028}'
    ||| c == '\u{2029}'
    ||| c == '\u{202f}'
    ||| c == '\u{205f}'
    ||| c == '\u{3000}'
}

/// How many elements at the front of `s` come before the first one for which
/// `stop` holds.
pub open spec fn run_length<A>(s: Seq<A>, stop: spec_fn(A) -> bool) -> nat
    decreases s.len(),
{
    if s.len() == 0 || stop(s[0]) {
        0
    } else {
        1 + run_length(s.drop_first(), stop)
    }
}

/// The text before the first line feed, or all of it. A carriage return that
/// ends the line is white space, so it never reaches a word.
pub open spec fn first_line(text: Seq<char>) -> Seq<char> {
    text.take(run_length(text, |c: char| c == '\n') as int)
}

/// The words of `s`: its maximal runs without white space, in order.
pub open spec fn words(s: Seq<char>) -> Seq<Seq<char>>
    decreases s.len(),
{
    if s.len() == 0 {
        Seq::empty()
    } else if is_white_space(s[0]) {
        words(s.drop_first())
    } else {
        let n = run_length(s, |c: char| is_white_space(c));
        proof {
            lemma_run_length(s, |c: char| is_white_space(c));
        }
        seq![s.take(n as int)] + words(s.skip(n as int))
    }
}

/// `word` begins with `prefix`.
pub open spec fn has_prefix(word: Seq<char>, prefix: Seq<char>) -> bool {
    prefix.len() <= word.len() && word.take(prefix.len() as int) == prefix
}

/// An HTTP method: upper-case ASCII letters and nothing else.
pub open spec fn is_method(word: Seq<char>) -> bool {
    forall|i: int| 0 <= i < word.len() ==> 'A' <= #[trigger] word[i] <= 'Z'
}

/// The first line of `text` is an HTTP proxy request: at least three words, a
/// method first, and either the method is `CONNECT` or the target is an
/// absolute `http` or `https` URI.
pub open spec fn is_proxy_request(text: Seq<char>) -> bool {
    let line = words(first_line(text));
    &&& line.len() >= 3
    &&& is_method(line[0])
    &&& {
        ||| line[0] == "CONNECT"@
        ||| has_prefix(line[1], "http://"@)
        ||| has_prefix(line[1], "https://"@)
    }
}

/// Bytes without the carriage returns that they end with.
pub open spec fn drop_returns(bytes: Seq<u8>) -> Seq<u8>
    decreases bytes.len(),
{
    if bytes.len() > 0 && bytes.last() == 0x0d {
        drop_returns(bytes.drop_last())
    } else {
        bytes
    }
}

/// The first line of some bytes: what comes before the first line feed, without
/// carriage returns at its end.
pub open spec fn line_bytes(bytes: Seq<u8>) -> Seq<u8> {
    drop_returns(bytes.take(run_length(bytes, |b: u8| b == 0x0a) as int))
}

/// The first line of some bytes as text.
pub open spec fn line_text(bytes: Seq<u8>) -> Seq<char> {
    let line = line_bytes(bytes);
    if valid_utf8(line) {
        decode_utf8(line)
    } else {
        lossy_text(line)
    }
}

/// The first line of some bytes is an HTTP proxy request.
pub open spec fn is_request(bytes: Seq<u8>) -> bool {
    is_proxy_request(line_text(bytes))
}

/// Whether a character is white space.
pub fn white_space(c: char) -> (r: bool)
    ensures
        r == is_white_space(c),
{
    ('\u{9}' <= c && c <= '\u{d}') || c == ' ' || c == '\u{85}' || c == '\u{a0}' || c == '\u{1680}'
        || ('\u{2000}' <= c && c <= '\u{200a}') || c == '\u{2028}' || c == '\u{2029}' || c
        == '\u{202f}' || c == '\u{205f}' || c == '\u{3000}'
}

/// A run ends at the first element that stops it, or at the end.
pub proof fn lemma_run_length<A>(s: Seq<A>, stop: spec_fn(A) -> bool)
    ensures
        run_length(s, stop) <= s.len(),
        forall|i: int| 0 <= i < run_length(s, stop) ==> !stop(#[trigger] s[i]),
        run_length(s, stop) < s.len() ==> stop(s[run_length(s, stop) as int]),
    decreases s.len(),
{
    if s.len() > 0 && !stop(s[0]) {
        let rest = s.drop_first();
        lemma_run_length(rest, stop);
        assert forall|i: int| 0 <= i < run_length(s, stop) implies !stop(#[trigger] s[i]) by {
            if i > 0 {
                assert(rest[i - 1] == s[i]);
            }
        }
    }
}

/// A position with no stop before it, and a stop or the end at it, is the
/// length of the run.
proof fn lemma_run_length_is<A>(s: Seq<A>, stop: spec_fn(A) -> bool, n: nat)
    requires
        n <= s.len(),
        forall|i: int| 0 <= i < n ==> !stop(#[trigger] s[i]),
        n < s.len() ==> stop(s[n as int]),
    ensures
        run_length(s, stop) == n,
{
    lemma_run_length(s, stop);
    let m = run_length(s, stop);
    if m < n {
        assert(!stop(s[m as int]));
    } else if n < m {
        assert(!stop(s[n as int]));
    }
}

/// The characters of a string, one by one.
fn chars_of(text: &str) -> (chars: Vec<char>)
    ensures
        chars@ == text@,
{
    let mut chars: Vec<char> = Vec::new();
    for c in it: text.chars()
        invariant
            chars@ == text@.take(it.index() as int),
            it.seq() == text@,
    {
        chars.push(c);
        assert(text@.take(it.index() + 1) =~= text@.take(it.index() as int).push(c));
    }
    assert(text@.take(text@.len() as int) =~= text@);
    chars
}

/// The end of the run without white space that starts at `from`.
fn word_end(chars: &Vec<char>, from: usize) -> (end: usize)
    requires
        from <= chars@.len(),
    ensures
        from <= end <= chars@.len(),
        end - from == run_length(chars@.skip(from as int), |c: char| is_white_space(c)),
{
    let mut end: usize = from;
    while end < chars.len() && !white_space(chars[end])
        invariant
            from <= end <= chars@.len(),
            forall|i: int| from <= i < end ==> !is_white_space(#[trigger] chars@[i]),
        decreases chars@.len() - end,
    {
        end = end + 1;
    }
    proof {
        let rest = chars@.skip(from as int);
        let stop = |c: char| is_white_space(c);
        assert forall|i: int| 0 <= i < end - from implies !stop(#[trigger] rest[i]) by {
            assert(rest[i] == chars@[from + i]);
        }
        lemma_run_length_is(rest, stop, (end - from) as nat);
    }
    end
}

/// The characters of `chars` from `from` up to `to`.
fn copy_range(chars: &Vec<char>, from: usize, to: usize) -> (part: Vec<char>)
    requires
        from <= to <= chars@.len(),
    ensures
        part@ == chars@.subrange(from as int, to as int),
{
    let mut part: Vec<char> = Vec::new();
    let mut i: usize = from;
    while i < to
        invariant
            from <= i <= to <= chars@.len(),
            part@ == chars@.subrange(from as int, i as int),
        decreases to - i,
    {
        part.push(chars[i]);
        i = i + 1;
    }
    part
}

/// The characters of each word.
spec fn contents(list: Seq<Vec<char>>) -> Seq<Seq<char>> {
    list.map_values(|word: Vec<char>| word@)
}

/// Splits a line into its words.
fn split_words(line: &Vec<char>) -> (list: Vec<Vec<char>>)
    ensures
        contents(list@) == words(line@),
{
    let mut list: Vec<Vec<char>> = Vec::new();
    let mut pos: usize = 0;
    assert(line@.skip(0) =~= line@);
    assert(contents(list@) + words(line@) =~= words(line@));
    while pos < line.len()
        invariant
            pos <= line@.len(),
            contents(list@) + words(line@.skip(pos as int)) == words(line@),
        decreases line@.len() - pos,
    {
        let ghost rest = line@.skip(pos as int);
        assert(rest[0] == line@[pos as int]);
        if white_space(line[pos]) {
            assert(rest.drop_first() =~= line@.skip(pos + 1));
            pos = pos + 1;
        } else {
            let end: usize = word_end(line, pos);
            let word = copy_range(line, pos, end);
            proof {
                lemma_run_length(rest, |c: char| is_white_space(c));
                assert(rest.take(end - pos) =~= word@);
                assert(rest.skip(end - pos) =~= line@.skip(end as int));
                assert(words(rest) == seq![word@] + words(line@.skip(end as int)));
                assert(contents(list@.push(word)) =~= contents(list@).push(word@));
                assert(contents(list@) + words(rest) =~= contents(list@.push(word)) + words(
                    line@.skip(end as int),
                ));
            }
            list.push(word);
            pos = end;
        }
    }
    proof {
        assert(line@.skip(pos as int) =~= Seq::<char>::empty());
        assert(contents(list@) + Seq::<Seq<char>>::empty() =~= contents(list@));
    }
    list
}

/// Whether all characters of a word are upper-case ASCII letters.
fn method(word: &Vec<char>) -> (r: bool)
    ensures
        r == is_method(word@),
{
    let mut i: usize = 0;
    while i < word.len()
        invariant
            i <= word@.len(),
            forall|j: int| 0 <= j < i ==> 'A' <= #[trigger] word@[j] <= 'Z',
        decreases word@.len() - i,
    {
        if word[i] < 'A' || 'Z' < word[i] {
            return false;
        }
        i = i + 1;
    }
    true
}

/// Whether a word begins with the characters of `prefix`.
fn starts_with(word: &Vec<char>, prefix: &str) -> (r: bool)
    ensures
        r == has_prefix(word@, prefix@),
{
    let expected = chars_of(prefix);
    if word.len() < expected.len() {
        return false;
    }
    let mut i: usize = 0;
    while i < expected.len()
        invariant
            i <= expected@.len() <= word@.len(),
            expected@ == prefix@,
            forall|j: int| 0 <= j < i ==> word@[j] == #[trigger] expected@[j],
        decreases expected@.len() - i,
    {
        if word[i] != expected[i] {
            assert(word@.take(prefix@.len() as int)[i as int] != prefix@[i as int]);
            return false;
        }
        i = i + 1;
    }
    assert(word@.take(prefix@.len() as int) =~= prefix@);
    true
}

/// Whether the first line of a text is an HTTP proxy request.
pub fn is_proxy_request_text(text: &str) -> (r: bool)
    ensures
        r == is_proxy_request(text@),
{
    let chars = chars_of(text);
    let mut end: usize = 0;
    while end < chars.len() && chars[end] != '\n'
        invariant
            end <= chars@.len(),
            forall|i: int| 0 <= i < end ==> #[trigger] chars@[i] != '\n',
        decreases chars@.len() - end,
    {
        end = end + 1;
    }
    proof {
        lemma_run_length_is(text@, |c: char| c == '\n', end as nat);
    }
    let line = copy_range(&chars, 0, end);
    let list = split_words(&line);
    assert(line@ =~= first_line(text@));
    assert(contents(list@).len() == list@.len());
    if list.len() < 3 {
        return false;
    }
    assert(contents(list@)[0] == list@[0]@);
    assert(contents(list@)[1] == list@[1]@);
    if !method(&list[0]) {
        return false;
    }
    let connect: bool = list[0].len() == 7 && starts_with(&list[0], "CONNECT");
    proof {
        reveal_strlit("CONNECT");
        if list@[0]@.len() == 7 {
            assert(list@[0]@.take(7) =~= list@[0]@);
        }
    }
    connect || starts_with(&list[1], "http://") || starts_with(&list[1], "https://")
}

/// How many characters a line needs to hold these words, with one separator
/// between neighbours.
pub open spec fn width(list: Seq<Seq<char>>) -> nat
    decreases list.len(),
{
    if list.len() == 0 {
        0
    } else if list.len() == 1 {
        list[0].len()
    } else {
        list[0].len() + 1 + width(list.drop_first())
    }
}

/// The words of a text are never empty, hold no white space, and fit in the
/// text with a separator between neighbours.
pub proof fn lemma_words(s: Seq<char>)
    ensures
        width(words(s)) <= s.len(),
        forall|i: int| 0 <= i < words(s).len() ==> (#[trigger] words(s)[i]).len() > 0,
        forall|i: int, j: int|
            0 <= i < words(s).len() && 0 <= j < words(s)[i].len() ==> !is_white_space(
                #[trigger] words(s)[i][j],
            ),
    decreases s.len(),
{
    if s.len() == 0 {
    } else if is_white_space(s[0]) {
        lemma_words(s.drop_first());
    } else {
        let stop = |c: char| is_white_space(c);
        let n = run_length(s, stop) as int;
        lemma_run_length(s, stop);
        let rest = s.skip(n);
        lemma_words(rest);
        let tail = words(rest);
        assert(words(s) == seq![s.take(n)] + tail);
        assert(words(s).drop_first() =~= tail);
        assert forall|i: int, j: int|
            0 <= i < words(s).len() && 0 <= j < words(s)[i].len() implies !is_white_space(
            #[trigger] words(s)[i][j],
        ) by {
            if i == 0 {
                assert(words(s)[0][j] == s[j]);
                assert(!stop(s[j]));
            } else {
                assert(words(s)[i] == tail[i - 1]);
            }
        }
        assert forall|i: int| 0 <= i < words(s).len() implies (#[trigger] words(s)[i]).len()
            > 0 by {
            if i > 0 {
                assert(words(s)[i] == tail[i - 1]);
            }
        }
        if tail.len() > 0 {
            assert(rest.len() > 0);
            assert(rest[0] == s[n]);
            assert(stop(s[n]));
            lemma_words(rest.drop_first());
            assert(tail == words(rest.drop_first()));
        }
    }
}

/// No text shorter than eleven characters is an HTTP proxy request.
pub proof fn lemma_request_needs_eleven(text: Seq<char>)
    requires
        is_proxy_request(text),
    ensures
        text.len() >= 11,
{
    lemma_run_length(text, |c: char| c == '\n');
    let line = first_line(text);
    let list = words(line);
    lemma_words(line);
    reveal_with_fuel(width, 4);
    reveal_strlit("CONNECT");
    reveal_strlit("http://");
    reveal_strlit("https://");
    assert(list[0].len() > 0 && list[1].len() > 0 && list[2].len() > 0);
    assert(list.drop_first()[0] == list[1]);
    assert(list.drop_first().drop_first()[0] == list[2]);
    assert(width(list) >= list[0].len() + 1 + list[1].len() + 1 + list[2].len());
}

/// What follows the first line feed plays no part in the first line.
pub proof fn lemma_first_line_prefix(head: Seq<char>, tail: Seq<char>)
    requires
        head.contains('\n'),
    ensures
        first_line(head + tail) == first_line(head),
        is_proxy_request(head + tail) == is_proxy_request(head),
{
    let stop = |c: char| c == '\n';
    lemma_run_length(head, stop);
    let n = run_length(head, stop);
    let at = choose|i: int| 0 <= i < head.len() && head[i] == '\n';
    if n >= head.len() {
        assert(!stop(head[at]));
    }
    let text = head + tail;
    assert forall|i: int| 0 <= i < n implies !stop(#[trigger] text[i]) by {
        assert(text[i] == head[i]);
    }
    lemma_run_length_is(text, stop, n);
    assert(text.take(n as int) =~= head.take(n as int));
}

/// A word that white space ends is the first word, and the rest follows it.
proof fn lemma_words_cons(word: Seq<char>, gap: char, rest: Seq<char>)
    requires
        word.len() > 0,
        forall|i: int| 0 <= i < word.len() ==> !is_white_space(#[trigger] word[i]),
        is_white_space(gap),
    ensures
        words(word + seq![gap] + rest) == seq![word] + words(rest),
        words(word) == seq![word],
{
    let stop = |c: char| is_white_space(c);
    let s = word + seq![gap] + rest;
    let n = word.len();
    assert forall|i: int| 0 <= i < n implies !stop(#[trigger] s[i]) by {
        assert(s[i] == word[i]);
    }
    assert(s[n as int] == gap);
    lemma_run_length_is(s, stop, n);
    assert(s[0] == word[0]);
    assert(s.take(n as int) =~= word);
    assert(s.skip(n as int)[0] == gap);
    assert(s.skip(n as int).drop_first() =~= rest);
    assert(words(s.skip(n as int)) == words(rest));
    assert forall|i: int| 0 <= i < n implies !stop(#[trigger] word[i]) by {}
    lemma_run_length_is(word, stop, n);
    assert(word.take(n as int) =~= word);
    assert(word.skip(n as int) =~= Seq::<char>::empty());
    assert(words(Seq::<char>::empty()) =~= Seq::<Seq<char>>::empty());
    assert(words(word) =~= seq![word]);
}

/// A word in the sense of a request line: not empty, without white space.
pub open spec fn is_word(word: Seq<char>) -> bool {
    &&& word.len() > 0
    &&& forall|i: int| 0 <= i < word.len() ==> !is_white_space(#[trigger] word[i])
}

/// Where a request line may end: at the end of the text, or at a line feed
/// with or without a carriage return before it.
pub open spec fn ends_line(tail: Seq<char>) -> bool {
    ||| tail.len() == 0
    ||| tail[0] == '\n'
    ||| tail.len() >= 2 && tail[0] == '\r' && tail[1] == '\n'
}

/// A request line of method, target and version, single spaces between them,
/// is a proxy request exactly when the method is one and is `CONNECT`, or the
/// target is an absolute `http` or `https` URI. The lines after it do not
/// matter.
pub proof fn lemma_request_line(
    method: Seq<char>,
    target: Seq<char>,
    version: Seq<char>,
    tail: Seq<char>,
)
    requires
        is_word(method),
        is_word(target),
        is_word(version),
        ends_line(tail),
    ensures
        is_proxy_request(method + seq![' '] + (target + seq![' '] + (version + tail))) <==> {
            &&& is_method(method)
            &&& {
                ||| method == "CONNECT"@
                ||| has_prefix(target, "http://"@)
                ||| has_prefix(target, "https://"@)
            }
        },
{
    let text = method + seq![' '] + (target + seq![' '] + (version + tail));
    let body = method + seq![' '] + (target + seq![' '] + version);
    let stop = |c: char| c == '\n';
    let bare = tail.len() == 0 || tail[0] == '\n';
    let line = if bare {
        body
    } else {
        body + seq!['\r']
    };
    let n = line.len();
    assert(text =~= body + tail);
    assert forall|i: int| 0 <= i < body.len() implies #[trigger] body[i] != '\n' by {
        let a = method.len() as int;
        let b = target.len() as int;
        if i < a {
            assert(body[i] == method[i]);
        } else if a < i < a + 1 + b {
            assert(body[i] == target[i - a - 1]);
        } else if a + 1 + b < i {
            assert(body[i] == version[i - a - b - 2]);
        }
    }
    assert forall|i: int| 0 <= i < n implies !stop(#[trigger] text[i]) by {
        if i < body.len() {
            assert(text[i] == body[i]);
        }
    }
    lemma_run_length_is(text, stop, n);
    assert(text.take(n as int) =~= line);
    let end: Seq<char> = if bare {
        Seq::empty()
    } else {
        seq!['\r']
    };
    let last = version + end;
    assert(line =~= method + seq![' '] + (target + seq![' '] + last));
    lemma_words_cons(method, ' ', target + seq![' '] + last);
    lemma_words_cons(target, ' ', last);
    lemma_words_cons(version, '\r', Seq::empty());
    if bare {
        assert(last =~= version);
    } else {
        assert(last =~= version + seq!['\r'] + Seq::<char>::empty());
    }
    assert(words(last) =~= seq![version]);
    let list = words(line);
    assert(list =~= seq![method, target, version]);
}

/// White space at the end adds no word.
proof fn lemma_words_trailing(s: Seq<char>, gap: char)
    requires
        is_white_space(gap),
    ensures
        words(s.push(gap)) == words(s),
    decreases s.len(),
{
    let longer = s.push(gap);
    let none = Seq::<char>::empty();
    assert(words(none) =~= Seq::<Seq<char>>::empty());
    if s.len() == 0 {
        assert(longer.drop_first() =~= none);
        assert(s =~= none);
    } else if is_white_space(s[0]) {
        assert(longer.drop_first() =~= s.drop_first().push(gap));
        lemma_words_trailing(s.drop_first(), gap);
    } else {
        let stop = |c: char| is_white_space(c);
        lemma_run_length(s, stop);
        let n = run_length(s, stop);
        assert forall|i: int| 0 <= i < n implies !stop(#[trigger] longer[i]) by {
            assert(longer[i] == s[i]);
        }
        lemma_run_length_is(longer, stop, n);
        assert(longer.take(n as int) =~= s.take(n as int));
        assert(longer.skip(n as int) =~= s.skip(n as int).push(gap));
        lemma_words_trailing(s.skip(n as int), gap);
    }
}

/// Carriage returns at the end add no word.
proof fn lemma_words_returns(s: Seq<char>, crs: Seq<char>)
    requires
        forall|i: int| 0 <= i < crs.len() ==> #[trigger] crs[i] == '\r',
    ensures
        words(s + crs) == words(s),
    decreases crs.len(),
{
    if crs.len() == 0 {
        assert(s + crs =~= s);
    } else {
        let init = crs.drop_last();
        lemma_words_returns(s, init);
        lemma_words_trailing(s + init, '\r');
        assert(s + crs =~= (s + init).push('\r'));
    }
}

/// Carriage returns, and a line feed with all that follows it, do not change
/// the answer.
proof fn lemma_returns(text: Seq<char>, crs: Seq<char>, tail: Seq<char>)
    requires
        forall|i: int| 0 <= i < crs.len() ==> #[trigger] crs[i] == '\r',
        tail.len() == 0 || tail[0] == '\n',
    ensures
        is_proxy_request(text + crs + tail) == is_proxy_request(text),
{
    if text.contains('\n') {
        assert(text + crs + tail =~= text + (crs + tail));
        lemma_first_line_prefix(text, crs + tail);
    } else {
        let stop = |c: char| c == '\n';
        let line = text + crs;
        let all = line + tail;
        assert forall|i: int| 0 <= i < text.len() implies !stop(#[trigger] text[i]) by {}
        lemma_run_length_is(text, stop, text.len());
        assert forall|i: int| 0 <= i < line.len() implies !stop(#[trigger] all[i]) by {
            if i < text.len() {
                assert(all[i] == text[i]);
            } else {
                assert(all[i] == crs[i - text.len()]);
            }
        }
        lemma_run_length_is(all, stop, line.len());
        assert(all.take(line.len() as int) =~= line);
        assert(text.take(text.len() as int) =~= text);
        lemma_words_returns(text, crs);
    }
}

/// A text needs no line terminator: it is judged like the same text followed by
/// a line feed, with or without a carriage return before it.
pub proof fn lemma_terminator(text: Seq<char>)
    ensures
        is_proxy_request(text + seq!['\n']) == is_proxy_request(text),
        is_proxy_request(text + seq!['\r', '\n']) == is_proxy_request(text),
{
    lemma_returns(text, Seq::empty(), seq!['\n']);
    assert(text + Seq::<char>::empty() + seq!['\n'] =~= text + seq!['\n']);
    lemma_returns(text, seq!['\r'], seq!['\n']);
    assert(text + seq!['\r'] + seq!['\n'] =~= text + seq!['\r', '\n']);
}

/// Dropping carriage returns takes nothing else away.
proof fn lemma_drop_returns(bytes: Seq<u8>)
    ensures
        drop_returns(bytes).len() <= bytes.len(),
        drop_returns(bytes) == bytes.take(drop_returns(bytes).len() as int),
        forall|i: int|
            drop_returns(bytes).len() <= i < bytes.len() ==> #[trigger] bytes[i] == 0x0d,
    decreases bytes.len(),
{
    if bytes.len() > 0 && bytes.last() == 0x0d {
        let init = bytes.drop_last();
        lemma_drop_returns(init);
        let n = drop_returns(init).len() as int;
        assert(init.take(n) =~= bytes.take(n));
        assert forall|i: int| n <= i < bytes.len() implies #[trigger] bytes[i] == 0x0d by {
            if i < init.len() {
                assert(init[i] == bytes[i]);
            }
        }
    } else {
        assert(bytes.take(bytes.len() as int) =~= bytes);
    }
}

/// Of any bytes, nothing after the first line feed changes the answer, and a
/// line terminator is not needed.
pub proof fn lemma_first_line_decides(line: Seq<u8>, after: Seq<u8>)
    ensures
        is_request(line + seq![0x0au8] + after) == is_request(line),
        is_request(line + seq![0x0du8, 0x0au8]) == is_request(line),
{
    let stop = |b: u8| b == 0x0a;
    let fed = line + seq![0x0au8] + after;
    let returned = line + seq![0x0du8, 0x0au8];
    lemma_run_length(line, stop);
    let n = run_length(line, stop);
    assert forall|i: int| 0 <= i < n implies !stop(#[trigger] fed[i]) by {
        assert(fed[i] == line[i]);
    }
    assert(stop(fed[n as int])) by {
        if n < line.len() {
            assert(fed[n as int] == line[n as int]);
        }
    }
    lemma_run_length_is(fed, stop, n);
    assert(fed.take(n as int) =~= line.take(n as int));
    if n < line.len() {
        assert forall|i: int| 0 <= i < n implies !stop(#[trigger] returned[i]) by {
            assert(returned[i] == line[i]);
        }
        assert(returned[n as int] == line[n as int]);
        lemma_run_length_is(returned, stop, n);
        assert(returned.take(n as int) =~= line.take(n as int));
    } else {
        assert forall|i: int| 0 <= i < n + 1 implies !stop(#[trigger] returned[i]) by {
            if i < n {
                assert(returned[i] == line[i]);
            }
        }
        lemma_run_length_is(returned, stop, n + 1);
        let cut = returned.take((n + 1) as int);
        assert(cut.last() == 0x0d);
        assert(cut.drop_last() =~= line.take(n as int));
    }
}

/// Texts are encoded one after the other.
proof fn lemma_encode_concat(a: Seq<char>, b: Seq<char>)
    ensures
        encode_utf8(a + b) == encode_utf8(a) + encode_utf8(b),
    decreases a.len(),
{
    if a.len() == 0 {
        assert(a + b =~= b);
        assert(encode_utf8(a) + encode_utf8(b) =~= encode_utf8(b));
    } else {
        assert((a + b).drop_first() =~= a.drop_first() + b);
        lemma_encode_concat(a.drop_first(), b);
        assert(encode_utf8(a + b) =~= encode_utf8(a) + encode_utf8(b));
    }
}

/// ASCII bytes are the encoding of the characters that they stand for.
proof fn lemma_encode_ascii(bytes: Seq<u8>)
    requires
        is_ascii_run(bytes),
    ensures
        encode_utf8(ascii_text(bytes)) == bytes,
{
    let chars = ascii_text(bytes);
    assert(is_ascii_chars(chars));
    is_ascii_chars_encode_utf8(chars);
    assert(encode_utf8(chars) =~= bytes);
}

/// An ASCII byte occurs in an encoded text only where its character does.
proof fn lemma_encode_lacks(chars: Seq<char>, byte: u8)
    requires
        byte < 0x80,
        forall|i: int| 0 <= i < chars.len() ==> #[trigger] chars[i] != byte as char,
    ensures
        forall|i: int| 0 <= i < encode_utf8(chars).len() ==> #[trigger] encode_utf8(chars)[i]
            != byte,
    decreases chars.len(),
{
    if chars.len() > 0 {
        let rest = chars.drop_first();
        lemma_encode_lacks(rest, byte);
        let c = chars[0] as u32;
        char_is_scalar(chars[0]);
        assert(c <= 0x7f ==> (c & 0x7f) as u8 == c) by (bit_vector);
        assert((0xC0u8 | ((c >> 6) & 0x1F) as u8) >= 0x80) by (bit_vector);
        assert((0xE0u8 | ((c >> 12) & 0x0F) as u8) >= 0x80) by (bit_vector);
        assert((0xF0u8 | ((c >> 18) & 0x7) as u8) >= 0x80) by (bit_vector);
        assert((0x80u8 | (c & 0x3F) as u8) >= 0x80) by (bit_vector);
        assert((0x80u8 | ((c >> 6) & 0x3F) as u8) >= 0x80) by (bit_vector);
        assert((0x80u8 | ((c >> 12) & 0x3F) as u8) >= 0x80) by (bit_vector);
        let first = encode_scalar(c);
        let all = encode_utf8(chars);
        assert forall|i: int| 0 <= i < first.len() implies #[trigger] first[i] != byte by {
            if c <= 0x7f {
                char_u32_cast(chars[0], c);
                assert(chars[0] != byte as char);
                assert(first[0] == c);
            } else {
                assert(first[i] >= 0x80);
            }
        }
        assert forall|i: int| 0 <= i < all.len() implies #[trigger] all[i] != byte by {
            if i < first.len() {
                assert(all[i] == first[i]);
            } else {
                assert(all[i] == encode_utf8(rest)[i - first.len()]);
            }
        }
    }
}

/// Where a request line may end among bytes: at the end, at a line feed, or at a
/// carriage return that ends the bytes or comes before a line feed.
pub open spec fn ends_line_bytes(tail: Seq<u8>) -> bool {
    ||| tail.len() == 0
    ||| tail[0] == 0x0a
    ||| tail[0] == 0x0d && (tail.len() == 1 || tail[1] == 0x0a)
}

/// A request line: method, target and version with single spaces between them.
pub open spec fn request_line(
    method: Seq<char>,
    target: Seq<char>,
    version: Seq<char>,
) -> Seq<char> {
    method + seq![' '] + (target + seq![' '] + version)
}

/// Bytes that begin with a request line are a proxy request exactly when the
/// method is one and is `CONNECT`, or the target is an absolute `http` or
/// `https` URI. Whatever follows the line does not matter.
pub proof fn lemma_request_line_bytes(
    method: Seq<char>,
    target: Seq<char>,
    version: Seq<char>,
    tail: Seq<u8>,
)
    requires
        is_word(method),
        is_word(target),
        is_word(version),
        ends_line_bytes(tail),
    ensures
        is_request(encode_utf8(request_line(method, target, version)) + tail) <==> {
            &&& is_method(method)
            &&& {
                ||| method == "CONNECT"@
                ||| has_prefix(target, "http://"@)
                ||| has_prefix(target, "https://"@)
            }
        },
{
    let line = request_line(method, target, version);
    let head = encode_utf8(line);
    let bytes = head + tail;
    assert forall|i: int| 0 <= i < line.len() implies #[trigger] line[i] != '\n' && line[i]
        != '\r' by {
        let a = method.len() as int;
        let b = target.len() as int;
        if i < a {
            assert(line[i] == method[i]);
        } else if a < i < a + 1 + b {
            assert(line[i] == target[i - a - 1]);
        } else if a + 1 + b < i {
            assert(line[i] == version[i - a - b - 2]);
        }
    }
    lemma_encode_lacks(line, 0x0a);
    lemma_encode_lacks(line, 0x0d);
    encode_utf8_valid_utf8(line);
    encode_utf8_decode_utf8(line);
    let stop = |b: u8| b == 0x0a;
    let n = head.len();
    let ended: nat = if tail.len() > 0 && tail[0] == 0x0d {
        1
    } else {
        0
    };
    assert forall|i: int| 0 <= i < n + ended implies !stop(#[trigger] bytes[i]) by {
        if i < n {
            assert(bytes[i] == head[i]);
        } else {
            assert(bytes[i] == tail[i - n]);
        }
    }
    if n + ended < bytes.len() {
        assert(bytes[(n + ended) as int] == tail[ended as int]);
    }
    lemma_run_length_is(bytes, stop, n + ended);
    let cut = bytes.take((n + ended) as int);
    assert(head.len() == 0 || head.last() != 0x0d);
    if ended == 1 {
        assert(cut.last() == tail[0]);
        assert(cut.drop_last() =~= head);
        assert(drop_returns(cut) == drop_returns(cut.drop_last()));
    } else {
        assert(cut =~= head);
    }
    assert(line_bytes(bytes) == head);
    lemma_request_line(method, target, version, Seq::empty());
    assert(version + Seq::<char>::empty() =~= version);
}

/// What is known of the lossy text of some bytes settles how their first line
/// is judged.
proof fn lemma_line_text(bytes: Seq<u8>, text: Seq<char>)
    requires
        text == lossy_text(bytes),
        valid_utf8(bytes) ==> text == decode_utf8(bytes),
        forall|i: int|
            0 <= i <= bytes.len() && #[trigger] valid_utf8(bytes.take(i)) ==> text == decode_utf8(
                bytes.take(i),
            ) + lossy_text(bytes.skip(i)),
        forall|i: int, j: int|
            0 <= i < j <= bytes.len() && #[trigger] is_ascii_run(bytes.subrange(i, j)) ==> text
                == lossy_text(bytes.take(i)) + ascii_text(bytes.subrange(i, j)) + (if j
                < bytes.len() {
                lossy_text(bytes.skip(j))
            } else {
                Seq::empty()
            }),
    ensures
        is_proxy_request(text) == is_request(bytes),
{
    let stop = |b: u8| b == 0x0a;
    lemma_run_length(bytes, stop);
    let end = run_length(bytes, stop) as int;
    let cut = bytes.take(end);
    lemma_drop_returns(cut);
    let line = line_bytes(bytes);
    let n = line.len() as int;
    assert(line =~= bytes.take(n));
    let stopped = if end < bytes.len() {
        end + 1
    } else {
        end
    };
    if n == stopped {
        assert(line =~= bytes);
    } else {
        let run = bytes.subrange(n, stopped);
        let crs = ascii_text(bytes.subrange(n, end));
        assert forall|i: int| 0 <= i < end - n implies bytes.subrange(n, end)[i] == 0x0d by {
            assert(cut[n + i] == bytes[n + i]);
        }
        assert forall|i: int| 0 <= i < crs.len() implies #[trigger] crs[i] == '\r' by {}
        assert forall|i: int| 0 <= i < run.len() implies #[trigger] run[i] < 0x80 by {
            if n + i < end {
                assert(run[i] == bytes.subrange(n, end)[i]);
            } else {
                assert(stop(bytes[end]));
            }
        }
        assert(is_ascii_run(run));
        let rest: Seq<char> = if stopped < bytes.len() {
            lossy_text(bytes.skip(stopped))
        } else {
            Seq::empty()
        };
        let tail: Seq<char> = if end < bytes.len() {
            seq!['\n'] + rest
        } else {
            Seq::empty()
        };
        assert(ascii_text(run) + rest =~= crs + tail) by {
            if end < bytes.len() {
                assert(stop(bytes[end]));
                assert(ascii_text(run) =~= crs.push('\n'));
            } else {
                assert(ascii_text(run) =~= crs);
            }
        }
        if valid_utf8(line) {
            let chars = decode_utf8(line);
            let head = bytes.take(stopped);
            lemma_encode_concat(chars, ascii_text(run));
            lemma_encode_ascii(run);
            decode_utf8_encode_utf8(line);
            assert(line + run =~= head);
            encode_utf8_valid_utf8(chars + ascii_text(run));
            encode_utf8_decode_utf8(chars + ascii_text(run));
            if stopped == bytes.len() {
                assert(head =~= bytes);
                assert(text =~= chars + crs + tail);
            } else {
                assert(text == chars + ascii_text(run) + rest);
                assert(text =~= chars + (ascii_text(run) + rest));
                assert(text =~= chars + crs + tail);
            }
            lemma_returns(chars, crs, tail);
        } else {
            let chars = lossy_text(line);
            assert(text == chars + ascii_text(run) + rest);
            assert(text =~= chars + (ascii_text(run) + rest));
            assert(text =~= chars + crs + tail);
            lemma_returns(chars, crs, tail);
        }
    }
}

/// Returns true if the peeked bytes look like an HTTP proxy request: the first
/// line starts with an HTTP method and has an absolute URI or a `CONNECT`
/// target.
///
/// The bytes are read as UTF-8 text. Only the first line decides.
pub fn is_http_proxy_request(peek: &[u8]) -> (r: bool)
    ensures
        r == is_request(peek@),
        r == is_proxy_request(lossy_text(peek@)),
        valid_utf8(peek@) ==> r == is_proxy_request(decode_utf8(peek@)),
        forall|i: int|
            0 <= i <= peek@.len() && #[trigger] valid_utf8(peek@.take(i)) && decode_utf8(
                peek@.take(i),
            ).contains('\n') ==> r == is_proxy_request(decode_utf8(peek@.take(i))),
        is_ascii_run(peek@) ==> r == is_proxy_request(ascii_text(peek@)),
        peek@.len() < 11 ==> !r,
{
    let head = String::from_utf8_lossy(peek);
    let ghost text = head@;
    let r: bool = match head {
        Cow::Borrowed(head) => is_proxy_request_text(head),
        Cow::Owned(head) => is_proxy_request_text(head.as_str()),
    };
    proof {
        if is_proxy_request(text) {
            lemma_request_needs_eleven(text);
        }
        if is_ascii_run(peek@) {
            lemma_encode_ascii(peek@);
            encode_utf8_valid_utf8(ascii_text(peek@));
            encode_utf8_decode_utf8(ascii_text(peek@));
        }
        assert forall|i: int|
            0 <= i <= peek@.len() && #[trigger] valid_utf8(peek@.take(i)) && decode_utf8(
                peek@.take(i),
            ).contains('\n') implies r == is_proxy_request(decode_utf8(peek@.take(i))) by {
            lemma_first_line_prefix(decode_utf8(peek@.take(i)), lossy_text(peek@.skip(i)));
        }
        lemma_line_text(peek@, text);
    }
    r
}

/// White space is these twenty-five characters, by number, and no others.
pub proof fn lemma_white_space(c: char)
    ensures
        is_white_space(c) <==> {
            let n = c as int;
            ||| n == 0x09 || n == 0x0a || n == 0x0b || n == 0x0c || n == 0x0d || n == 0x20
            ||| n == 0x85 || n == 0xa0 || n == 0x1680
            ||| n == 0x2000 || n == 0x2001 || n == 0x2002 || n == 0x2003 || n == 0x2004 || n
                == 0x2005 || n == 0x2006 || n == 0x2007 || n == 0x2008 || n == 0x2009 || n == 0x200a
            ||| n == 0x2028 || n == 0x2029 || n == 0x202f || n == 0x205f || n == 0x3000
        },
{
}

/// A word is a method exactly if each of its characters is one of the twenty-six
/// letters from `A`, 0x41, to `Z`, 0x5a, both among them.
pub proof fn lemma_method_letters(word: Seq<char>)
    ensures
        is_method(word) <==> forall|i: int|
            0 <= i < word.len() ==> 0x41 <= (#[trigger] word[i]) as int <= 0x5a,
{
    if is_method(word) {
        assert forall|i: int| 0 <= i < word.len() implies 0x41 <= (#[trigger] word[i]) as int
            <= 0x5a by {
            assert('A' <= word[i] <= 'Z');
        }
    }
    if forall|i: int| 0 <= i < word.len() ==> 0x41 <= (#[trigger] word[i]) as int <= 0x5a {
        assert forall|i: int| 0 <= i < word.len() implies 'A' <= #[trigger] word[i] <= 'Z' by {}
    }
}

/// A word has a prefix exactly if it is that prefix with something, perhaps
/// nothing, after it.
pub proof fn lemma_prefix(word: Seq<char>, prefix: Seq<char>)
    ensures
        has_prefix(word, prefix) <==> exists|rest: Seq<char>| word == #[trigger] (prefix + rest),
{
    if has_prefix(word, prefix) {
        let rest = word.skip(prefix.len() as int);
        assert(word.take(prefix.len() as int) + rest =~= word);
        assert(word == prefix + rest);
    }
    if exists|rest: Seq<char>| word == #[trigger] (prefix + rest) {
        let rest = choose|rest: Seq<char>| word == #[trigger] (prefix + rest);
        assert((prefix + rest).take(prefix.len() as int) =~= prefix);
    }
}

/// The first line is the start of the text up to the first line feed, or all of
/// the text if it holds none.
pub proof fn lemma_first_line(text: Seq<char>)
    ensures
        first_line(text).len() <= text.len(),
        first_line(text) == text.take(first_line(text).len() as int),
        forall|i: int|
            0 <= i < first_line(text).len() ==> (#[trigger] first_line(text)[i]) as int != 0x0a,
        first_line(text).len() < text.len() ==> text[first_line(text).len() as int] as int == 0x0a,
{
    let stop = |c: char| c == '\n';
    lemma_run_length(text, stop);
    let n = run_length(text, stop) as int;
    assert(first_line(text).len() == n);
    assert forall|i: int| 0 <= i < n implies (#[trigger] first_line(text)[i]) as int != 0x0a by {
        assert(!stop(text[i]));
    }
    if n < text.len() {
        assert(stop(text[n]));
    }
}

/// Three equations that settle the words of every text: there are none in the
/// empty text; white space in front changes nothing; a word in front, which the
/// text ends or white space ends, is the first word.
pub proof fn lemma_words_equations(
    blank: char,
    any: Seq<char>,
    word: Seq<char>,
    after: Seq<char>,
)
    requires
        is_white_space(blank),
        is_word(word),
        after.len() == 0 || is_white_space(after[0]),
    ensures
        words(Seq::empty()) == Seq::<Seq<char>>::empty(),
        words(seq![blank] + any) == words(any),
        words(word + after) == seq![word] + words(after),
{
    assert((seq![blank] + any).drop_first() =~= any);
    assert(words(Seq::empty()) =~= Seq::<Seq<char>>::empty());
    if after.len() == 0 {
        lemma_words_cons(word, blank, any);
        assert(word + after =~= word);
        assert(after =~= Seq::<char>::empty());
        assert(seq![word] + words(after) =~= seq![word]);
    } else {
        let rest = after.drop_first();
        lemma_words_cons(word, after[0], rest);
        assert(word + seq![after[0]] + rest =~= word + after);
        assert(words(after) == words(rest));
    }
}

/// Any white space in front changes no word.
proof fn lemma_words_blanks(blanks: Seq<char>, any: Seq<char>)
    requires
        forall|i: int| 0 <= i < blanks.len() ==> is_white_space(#[trigger] blanks[i]),
    ensures
        words(blanks + any) == words(any),
    decreases blanks.len(),
{
    if blanks.len() == 0 {
        assert(blanks + any =~= any);
    } else {
        let rest = blanks.drop_first();
        assert forall|i: int| 0 <= i < rest.len() implies is_white_space(#[trigger] rest[i]) by {
            assert(rest[i] == blanks[i + 1]);
        }
        lemma_words_blanks(rest, any);
        assert((blanks + any)[0] == blanks[0]);
        assert((blanks + any).drop_first() =~= rest + any);
    }
}

/// A text whose first line has fewer than three words is no proxy request.
pub proof fn lemma_too_few_words(text: Seq<char>)
    requires
        words(first_line(text)).len() < 3,
    ensures
        !is_proxy_request(text),
{
}

/// A text whose first line has at least three words, with any white space around
/// and between them and anything after the third, is a proxy request exactly if
/// the first word is made of the letters `A` to `Z` and either is `CONNECT` or
/// the second word begins with `http://` or `https://`, in small letters.
pub proof fn lemma_request_words(
    lead: Seq<char>,
    method: Seq<char>,
    gap: Seq<char>,
    target: Seq<char>,
    space: Seq<char>,
    version: Seq<char>,
    rest: Seq<char>,
    tail: Seq<char>,
)
    requires
        is_word(method),
        is_word(target),
        is_word(version),
        gap.len() > 0,
        space.len() > 0,
        forall|i: int|
            0 <= i < lead.len() ==> is_white_space(#[trigger] lead[i]) && lead[i] != '\n',
        forall|i: int| 0 <= i < gap.len() ==> is_white_space(#[trigger] gap[i]) && gap[i] != '\n',
        forall|i: int|
            0 <= i < space.len() ==> is_white_space(#[trigger] space[i]) && space[i] != '\n',
        rest.len() == 0 || is_white_space(rest[0]),
        forall|i: int| 0 <= i < rest.len() ==> #[trigger] rest[i] != '\n',
        tail.len() == 0 || tail[0] == '\n',
    ensures
        is_proxy_request(
            lead + (method + (gap + (target + (space + (version + rest))))) + tail,
        ) <==> {
            &&& forall|i: int|
                0 <= i < method.len() ==> 0x41 <= (#[trigger] method[i]) as int <= 0x5a
            &&& {
                ||| method == "CONNECT"@
                ||| exists|path: Seq<char>| target == #[trigger] ("http://"@ + path)
                ||| exists|path: Seq<char>| target == #[trigger] ("https://"@ + path)
            }
        },
{
    let third = version + rest;
    let second = target + (space + third);
    let first = method + (gap + second);
    let line = lead + first;
    let text = line + tail;
    let stop = |c: char| c == '\n';
    assert forall|i: int| 0 <= i < third.len() implies #[trigger] third[i] != '\n' by {
        if i < version.len() {
            assert(third[i] == version[i]);
        } else {
            assert(third[i] == rest[i - version.len()]);
        }
    }
    assert forall|i: int| 0 <= i < second.len() implies #[trigger] second[i] != '\n' by {
        let a = target.len() as int;
        let b = space.len() as int;
        if i < a {
            assert(second[i] == target[i]);
        } else if i < a + b {
            assert(second[i] == space[i - a]);
        } else {
            assert(second[i] == third[i - a - b]);
        }
    }
    assert forall|i: int| 0 <= i < first.len() implies #[trigger] first[i] != '\n' by {
        let a = method.len() as int;
        let b = gap.len() as int;
        if i < a {
            assert(first[i] == method[i]);
        } else if i < a + b {
            assert(first[i] == gap[i - a]);
        } else {
            assert(first[i] == second[i - a - b]);
        }
    }
    assert forall|i: int| 0 <= i < line.len() implies !stop(#[trigger] text[i]) by {
        if i < lead.len() {
            assert(text[i] == lead[i]);
        } else {
            assert(text[i] == first[i - lead.len()]);
        }
    }
    if tail.len() > 0 {
        assert(text[line.len() as int] == tail[0]);
    }
    lemma_run_length_is(text, stop, line.len());
    assert(first_line(text) =~= line);
    assert((gap + second)[0] == gap[0]);
    assert((space + third)[0] == space[0]);
    lemma_words_blanks(lead, first);
    lemma_words_equations(' ', lead, method, gap + second);
    lemma_words_blanks(gap, second);
    lemma_words_equations(' ', lead, target, space + third);
    lemma_words_blanks(space, third);
    lemma_words_equations(' ', lead, version, rest);
    let list = words(line);
    assert(list =~= seq![method, target, version] + words(rest));
    assert(list[0] == method && list[1] == target);
    lemma_method_letters(method);
    lemma_prefix(target, "http://"@);
    lemma_prefix(target, "https://"@);
}

/// Bytes that hold a method, a target and a version with single spaces between
/// them are a proxy request exactly if each letter of the method is one of `A`
/// to `Z`, and the method is `CONNECT` or the target begins with `http://` or
/// `https://`.
pub proof fn lemma_request_bytes(
    method: Seq<char>,
    target: Seq<char>,
    version: Seq<char>,
    tail: Seq<u8>,
)
    requires
        is_word(method),
        is_word(target),
        is_word(version),
        ends_line_bytes(tail),
    ensures
        is_request(
            encode_utf8(method + seq![' '] + (target + seq![' '] + version)) + tail,
        ) <==> {
            &&& forall|i: int|
                0 <= i < method.len() ==> 0x41 <= (#[trigger] method[i]) as int <= 0x5a
            &&& {
                ||| method == "CONNECT"@
                ||| exists|path: Seq<char>| target == #[trigger] ("http://"@ + path)
                ||| exists|path: Seq<char>| target == #[trigger] ("https://"@ + path)
            }
        },
{
    lemma_request_line_bytes(method, target, version, tail);
    lemma_method_letters(method);
    lemma_prefix(target, "http://"@);
    lemma_prefix(target, "https://"@);
}

/// The bytes of every standard method with an absolute URI are a proxy request,
/// whatever the rest of the URI, the version and the lines after it.
pub proof fn lemma_standard_methods(
    method: Seq<char>,
    path: Seq<char>,
    version: Seq<char>,
    tail: Seq<u8>,
)
    requires
        method == "GET"@ || method == "HEAD"@ || method == "POST"@ || method == "PUT"@ || method
            == "PATCH"@ || method == "DELETE"@ || method == "OPTIONS"@ || method == "TRACE"@,
        forall|i: int| 0 <= i < path.len() ==> !is_white_space(#[trigger] path[i]),
        is_word(version),
        ends_line_bytes(tail),
    ensures
        is_request(
            encode_utf8(method + seq![' '] + ("http://"@ + path + seq![' '] + version)) + tail,
        ),
        is_request(
            encode_utf8(method + seq![' '] + ("https://"@ + path + seq![' '] + version)) + tail,
        ),
{
    reveal_strlit("GET");
    reveal_strlit("HEAD");
    reveal_strlit("POST");
    reveal_strlit("PUT");
    reveal_strlit("PATCH");
    reveal_strlit("DELETE");
    reveal_strlit("OPTIONS");
    reveal_strlit("TRACE");
    reveal_strlit("http://");
    reveal_strlit("https://");
    assert(forall|i: int|
        0 <= i < method.len() ==> 0x41 <= (#[trigger] method[i]) as int <= 0x5a);
    assert(is_word(method));
    lemma_absolute_uri(method, "http://"@, path, version, tail);
    lemma_absolute_uri(method, "https://"@, path, version, tail);
}

/// So are those of any method of upper-case letters.
proof fn lemma_absolute_uri(
    method: Seq<char>,
    scheme: Seq<char>,
    path: Seq<char>,
    version: Seq<char>,
    tail: Seq<u8>,
)
    requires
        is_word(method),
        forall|i: int| 0 <= i < method.len() ==> 0x41 <= (#[trigger] method[i]) as int <= 0x5a,
        scheme == "http://"@ || scheme == "https://"@,
        forall|i: int| 0 <= i < path.len() ==> !is_white_space(#[trigger] path[i]),
        is_word(version),
        ends_line_bytes(tail),
    ensures
        is_request(encode_utf8(method + seq![' '] + (scheme + path + seq![' '] + version)) + tail),
{
    reveal_strlit("http://");
    reveal_strlit("https://");
    let target = scheme + path;
    assert forall|i: int| 0 <= i < target.len() implies !is_white_space(#[trigger] target[i]) by {
        if i < scheme.len() {
            assert(target[i] == scheme[i]);
        } else {
            assert(target[i] == path[i - scheme.len()]);
        }
    }
    lemma_request_bytes(method, target, version, tail);
}

/// The bytes of every `CONNECT` line are a proxy request, whatever its target.
pub proof fn lemma_connect(target: Seq<char>, version: Seq<char>, tail: Seq<u8>)
    requires
        is_word(target),
        is_word(version),
        ends_line_bytes(tail),
    ensures
        is_request(
            encode_utf8("CONNECT"@ + seq![' '] + (target + seq![' '] + version)) + tail,
        ),
{
    reveal_strlit("CONNECT");
    assert(is_word("CONNECT"@));
    lemma_request_bytes("CONNECT"@, target, version, tail);
}

/// The first line of some bytes is their start. It holds no line feed and does
/// not end with a carriage return, and between it and the first line feed, or the
/// end, there are only carriage returns.
pub proof fn lemma_line_bytes(bytes: Seq<u8>, end: int)
    requires
        0 <= end <= bytes.len(),
        forall|i: int| 0 <= i < end ==> #[trigger] bytes[i] != 0x0a,
        end < bytes.len() ==> bytes[end] == 0x0a,
    ensures
        line_bytes(bytes).len() <= end,
        line_bytes(bytes) == bytes.take(line_bytes(bytes).len() as int),
        line_bytes(bytes).len() > 0 ==> line_bytes(bytes).last() != 0x0d,
        forall|i: int| line_bytes(bytes).len() <= i < end ==> #[trigger] bytes[i] == 0x0d,
{
    let stop = |b: u8| b == 0x0a;
    lemma_run_length_is(bytes, stop, end as nat);
    let cut = bytes.take(end);
    lemma_drop_returns(cut);
    lemma_returns_dropped(cut);
    let n = drop_returns(cut).len() as int;
    assert(cut.take(n) =~= bytes.take(n));
    assert forall|i: int| n <= i < end implies #[trigger] bytes[i] == 0x0d by {
        assert(cut[i] == bytes[i]);
    }
}

/// No carriage return is left at the end.
proof fn lemma_returns_dropped(bytes: Seq<u8>)
    ensures
        drop_returns(bytes).len() > 0 ==> drop_returns(bytes).last() != 0x0d,
    decreases bytes.len(),
{
    if bytes.len() > 0 && bytes.last() == 0x0d {
        lemma_returns_dropped(bytes.drop_last());
    }
}

/// A line of valid UTF-8 is judged by the text that it encodes; one that is not
/// valid by the text that decoding it with replacements gives.
pub proof fn lemma_request_text(line: Seq<u8>, text: Seq<char>)
    requires
        forall|i: int| 0 <= i < line.len() ==> #[trigger] line[i] != 0x0a,
        line.len() > 0 ==> line.last() != 0x0d,
    ensures
        line == encode_utf8(text) ==> is_request(line) == is_proxy_request(text),
        !valid_utf8(line) ==> is_request(line) == is_proxy_request(lossy_text(line)),
{
    lemma_line_bytes(line, line.len() as int);
    let n = line_bytes(line).len() as int;
    if n < line.len() {
        assert(line[line.len() - 1] == 0x0d);
    }
    assert(line.take(n) =~= line);
    if line == encode_utf8(text) {
        encode_utf8_valid_utf8(text);
        encode_utf8_decode_utf8(text);
    }
}

/// The characters of ASCII bytes have the numbers that the bytes have.
pub proof fn lemma_ascii(bytes: Seq<u8>)
    requires
        forall|i: int| 0 <= i < bytes.len() ==> #[trigger] bytes[i] < 0x80,
    ensures
        is_ascii_run(bytes),
        ascii_text(bytes).len() == bytes.len(),
        forall|i: int|
            0 <= i < bytes.len() ==> (#[trigger] ascii_text(bytes)[i]) as int == bytes[i] as int,
{
    assert forall|i: int| 0 <= i < bytes.len() implies (#[trigger] ascii_text(bytes)[i]) as int
        == bytes[i] as int by {
        assert(bytes[i] < 0x80);
    }
}

} // verus!
