//! Text: characters of a string, white space, lines, words and joining.

use vstd::prelude::*;

verus! {

broadcast use vstd::string::group_string_axioms;

/// `String::push` of the standard library: the character is added at the end,
/// the rest stays.
#[verifier::external_body]
fn push_char(s: &mut String, c: char)
    ensures
        final(s)@ == old(s)@.push(c),
{
    s.push(c)
}

/// The characters of a string, in order.
pub fn chars_of(s: &str) -> (r: Vec<char>)
    ensures
        r@ == s@,
{
    let mut r: Vec<char> = Vec::new();
    for c in it: s.chars()
        invariant
            it.seq() == s@,
            r@ == it.seq().take(it.index() as int),
    {
        r.push(c);
        assert(it.seq().take(it.index() + 1) =~= it.seq().take(it.index() as int).push(c));
    }
    assert(s@.take(s@.len() as int) =~= s@);
    r
}

/// The string made of `chars[from..to]`.
pub fn string_of(chars: &[char], from: usize, to: usize) -> (r: String)
    requires
        from <= to <= chars@.len(),
    ensures
        r@ == chars@.subrange(from as int, to as int),
{
    let mut r = String::new();
    let mut i: usize = from;
    while i < to
        invariant
            from <= i <= to <= chars@.len(),
            r@ == chars@.subrange(from as int, i as int),
        decreases to - i,
    {
        push_char(&mut r, chars[i]);
        assert(chars@.subrange(from as int, i + 1) =~= chars@.subrange(from as int, i as int).push(
            chars@[i as int],
        ));
        i += 1;
    }
    r
}


/// White space: the characters with the Unicode property `White_Space`.
pub open spec fn is_space(c: char) -> bool {
    let u = c as u32;
    ||| 0x09 <= u <= 0x0D
    ||| u == 0x20
    ||| u == 0x85
    ||| u == 0xA0
    ||| u == 0x1680
    ||| 0x2000 <= u <= 0x200A
    ||| u == 0x2028
    ||| u == 0x2029
    ||| u == 0x202F
    ||| u == 0x205F
    ||| u == 0x3000
}

/// Tells whether a character is white space.
pub fn char_is_space(c: char) -> (r: bool)
    ensures
        r == is_space(c),
{
    let u: u32 = c as u32;
    (0x09 <= u && u <= 0x0D) || u == 0x20 || u == 0x85 || u == 0xA0 || u == 0x1680 || (0x2000 <= u
        && u <= 0x200A) || u == 0x2028 || u == 0x2029 || u == 0x202F || u == 0x205F || u == 0x3000
}

/// Tells whether a character occurs in a string.
pub fn has_char(s: &str, c: char) -> (r: bool)
    ensures
        r == s@.contains(c),
{
    let mut found = false;
    for x in it: s.chars()
        invariant
            it.seq() == s@,
            found == it.seq().take(it.index() as int).contains(c),
    {
        let ghost seen = it.seq().take(it.index() as int);
        assert(it.seq().take(it.index() + 1) =~= seen.push(x));
        proof {
            if seen.contains(c) {
                let k = choose|k: int| 0 <= k < seen.len() && seen[k] == c;
                assert(seen.push(x)[k] == c);
            }
            if x == c {
                assert(seen.push(x)[seen.len() as int] == c);
            }
        }
        if x == c {
            found = true;
        }
    }
    assert(s@.take(s@.len() as int) =~= s@);
    found
}

/// The parts put one after the other with `sep` between each two.
pub open spec fn joined(parts: Seq<Seq<char>>, sep: Seq<char>) -> Seq<char>
    decreases parts.len(),
{
    if parts.len() == 0 {
        Seq::empty()
    } else if parts.len() == 1 {
        parts[0]
    } else {
        joined(parts.drop_last(), sep) + sep + parts.last()
    }
}

/// Joins the parts into one string, with `sep` between each two.
pub fn join(parts: &[String], sep: &str) -> (r: String)
    ensures
        r@ == joined(parts.deep_view(), sep@),
{
    let ghost all = parts.deep_view();
    let mut r = String::new();
    let mut i: usize = 0;
    while i < parts.len()
        invariant
            all == parts.deep_view(),
            i <= parts.len(),
            r@ == joined(all.take(i as int), sep@),
        decreases parts.len() - i,
    {
        if i > 0 {
            r.append(sep);
        }
        r.append(parts[i].as_str());
        proof {
            let now = all.take(i + 1);
            assert(now.drop_last() =~= all.take(i as int));
            assert(now.last() == all[i as int]);
            if i == 0 {
                assert(r@ =~= now[0]);
            }
        }
        i += 1;
    }
    assert(all.take(i as int) =~= all);
    r
}


/// The length of the first line: the place of the first line feed, or the
/// length of the text where it has none.
pub open spec fn line_len(s: Seq<char>) -> nat
    decreases s.len(),
{
    if s.len() == 0 || s[0] == '\n' {
        0
    } else {
        1 + line_len(s.drop_first())
    }
}

/// The lines of a text: what stands between its line feeds.
pub open spec fn split_lines(s: Seq<char>) -> Seq<Seq<char>>
    decreases s.len(),
{
    let k = line_len(s) as int;
    if k >= s.len() {
        seq![s]
    } else {
        seq![s.take(k)] + split_lines(s.skip(k + 1))
    }
}

/// The text without the white space at its start.
pub open spec fn trim_start(s: Seq<char>) -> Seq<char>
    decreases s.len(),
{
    if s.len() > 0 && is_space(s[0]) {
        trim_start(s.drop_first())
    } else {
        s
    }
}

/// The text without the white space at its end.
pub open spec fn trim_end(s: Seq<char>) -> Seq<char>
    decreases s.len(),
{
    if s.len() > 0 && is_space(s.last()) {
        trim_end(s.drop_last())
    } else {
        s
    }
}

/// The text without the white space at either end.
pub open spec fn trim(s: Seq<char>) -> Seq<char> {
    trim_end(trim_start(s))
}

/// The names on the given lines: each line trimmed, blank lines left out.
pub open spec fn line_names(lines: Seq<Seq<char>>) -> Seq<Seq<char>>
    decreases lines.len(),
{
    if lines.len() == 0 {
        Seq::empty()
    } else {
        let name = trim(lines[0]);
        let rest = line_names(lines.drop_first());
        if name.len() > 0 {
            seq![name] + rest
        } else {
            rest
        }
    }
}

/// The names that the output of a query lists: one on each line that is not
/// blank, without the white space around it.
pub open spec fn output_names(text: Seq<char>) -> Seq<Seq<char>> {
    line_names(split_lines(text))
}

/// `line_len` is the place `k` where the first line ends.
proof fn lemma_line_len(s: Seq<char>, k: int)
    requires
        0 <= k <= s.len(),
        forall|j: int| 0 <= j < k ==> s[j] != '\n',
        k == s.len() || s[k] == '\n',
    ensures
        line_len(s) == k,
    decreases k,
{
    if k > 0 {
        lemma_line_len(s.drop_first(), k - 1);
    }
}

/// `trim_start` drops the `a` leading characters that are white space.
proof fn lemma_trim_start(s: Seq<char>, a: int)
    requires
        0 <= a <= s.len(),
        forall|j: int| 0 <= j < a ==> is_space(s[j]),
        a == s.len() || !is_space(s[a]),
    ensures
        trim_start(s) == s.skip(a),
    decreases a,
{
    if a > 0 {
        lemma_trim_start(s.drop_first(), a - 1);
        assert(s.drop_first().skip(a - 1) =~= s.skip(a));
    } else {
        assert(s.skip(0) =~= s);
    }
}

/// `trim_end` keeps the first `b` characters where the rest is white space.
proof fn lemma_trim_end(s: Seq<char>, b: int)
    requires
        0 <= b <= s.len(),
        forall|j: int| b <= j < s.len() ==> is_space(s[j]),
        b == 0 || !is_space(s[b - 1]),
    ensures
        trim_end(s) == s.take(b),
    decreases s.len() - b,
{
    if b < s.len() {
        lemma_trim_end(s.drop_last(), b);
        assert(s.drop_last().take(b) =~= s.take(b));
    } else {
        assert(s.take(b) =~= s);
    }
}

/// `output_names` taken one line at a time.
proof fn lemma_output_names_step(s: Seq<char>)
    ensures
        ({
            let k = line_len(s) as int;
            let name = trim(s.take(k));
            let head = if name.len() > 0 { seq![name] } else { Seq::empty() };
            output_names(s) == if k >= s.len() { head } else { head + output_names(s.skip(k + 1)) }
        }),
{
    let k = line_len(s) as int;
    let name = trim(s.take(k));
    let head = if name.len() > 0 { seq![name] } else { Seq::<Seq<char>>::empty() };
    lemma_line_len_bound(s);
    if k >= s.len() {
        assert(s.take(k) =~= s);
        let lines = seq![s];
        assert(lines.drop_first() =~= Seq::<Seq<char>>::empty());
        assert(line_names(lines.drop_first()) =~= Seq::<Seq<char>>::empty());
        assert(line_names(lines) =~= head);
    } else {
        let rest = split_lines(s.skip(k + 1));
        let lines = seq![s.take(k)] + rest;
        assert(lines[0] == s.take(k));
        assert(lines.drop_first() =~= rest);
        assert(line_names(lines) =~= head + line_names(rest));
    }
}

/// A line is not longer than the text.
proof fn lemma_line_len_bound(s: Seq<char>)
    ensures
        line_len(s) <= s.len(),
    decreases s.len(),
{
    if s.len() > 0 && s[0] != '\n' {
        lemma_line_len_bound(s.drop_first());
    }
}

/// Reads the names that the output of a query lists, in the order of the
/// lines.
pub fn names_in_output(output: &str) -> (r: Vec<String>)
    ensures
        r.deep_view() == output_names(output@),
{
    let chars = chars_of(output);
    let ghost text = chars@;
    let mut r: Vec<String> = Vec::new();
    let mut start: usize = 0;
    let mut done = false;
    assert(text.skip(0) =~= text);
    assert(r.deep_view() + output_names(text) =~= output_names(text));
    while !done
        invariant
            text == chars@,
            start <= chars.len(),
            done ==> r.deep_view() == output_names(text),
            !done ==> r.deep_view() + output_names(text.skip(start as int)) == output_names(text),
        decreases chars.len() - start + (if done { 0int } else { 1int }),
    {
        let ghost rest = text.skip(start as int);
        let ghost before = r.deep_view();
        let mut end: usize = start;
        while end < chars.len() && chars[end] != '\n'
            invariant
                text == chars@,
                start <= end <= chars.len(),
                forall|j: int| start <= j < end ==> text[j] != '\n',
            decreases chars.len() - end,
        {
            end += 1;
        }
        let mut a: usize = start;
        while a < end && char_is_space(chars[a])
            invariant
                text == chars@,
                start <= a <= end <= chars.len(),
                forall|j: int| start <= j < a ==> is_space(text[j]),
            decreases end - a,
        {
            a += 1;
        }
        let mut b: usize = end;
        while b > a && char_is_space(chars[b - 1])
            invariant
                text == chars@,
                a <= b <= end <= chars.len(),
                forall|j: int| b <= j < end ==> is_space(text[j]),
            decreases b,
        {
            b -= 1;
        }
        proof {
            let line = text.subrange(start as int, end as int);
            lemma_line_len(rest, end - start);
            assert(rest.take(end - start) =~= line);
            lemma_trim_start(line, a - start);
            assert(line.skip(a - start) =~= text.subrange(a as int, end as int));
            lemma_trim_end(text.subrange(a as int, end as int), b - a);
            assert(text.subrange(a as int, end as int).take(b - a) =~= text.subrange(
                a as int,
                b as int,
            ));
            assert(trim(line) == text.subrange(a as int, b as int));
            lemma_output_names_step(rest);
            if end < chars.len() {
                assert(rest.skip(end - start + 1) =~= text.skip(end + 1));
            }
        }
        if b > a {
            let name = string_of(chars.as_slice(), a, b);
            r.push(name);
            assert(r.deep_view() =~= before + seq![text.subrange(a as int, b as int)]);
        }
        if end < chars.len() {
            start = end + 1;
            assert(r.deep_view() + output_names(text.skip(start as int)) =~= before + output_names(
                rest,
            ));
        } else {
            done = true;
            assert(r.deep_view() =~= before + output_names(rest));
        }
    }
    r
}


/// The length of the first word: the number of characters before the first
/// white space.
pub open spec fn word_len(s: Seq<char>) -> nat
    decreases s.len(),
{
    if s.len() == 0 || is_space(s[0]) {
        0
    } else {
        1 + word_len(s.drop_first())
    }
}

/// The words of a text: its longest stretches without white space.
pub open spec fn words(s: Seq<char>) -> Seq<Seq<char>>
    decreases s.len(),
{
    if s.len() == 0 {
        Seq::empty()
    } else if is_space(s[0]) {
        words(s.drop_first())
    } else {
        let k = word_len(s) as int;
        if k >= s.len() {
            seq![s]
        } else {
            seq![s.take(k)] + words(s.skip(k))
        }
    }
}

/// `word_len` is the place `k` where the first word ends.
proof fn lemma_word_len(s: Seq<char>, k: int)
    requires
        0 <= k <= s.len(),
        forall|j: int| 0 <= j < k ==> !is_space(s[j]),
        k == s.len() || is_space(s[k]),
    ensures
        word_len(s) == k,
    decreases k,
{
    if k > 0 {
        lemma_word_len(s.drop_first(), k - 1);
    }
}

/// White space in front of a text adds no word.
proof fn lemma_words_skip_space(s: Seq<char>, a: int)
    requires
        0 <= a <= s.len(),
        forall|j: int| 0 <= j < a ==> is_space(s[j]),
    ensures
        words(s) == words(s.skip(a)),
    decreases a,
{
    if a > 0 {
        lemma_words_skip_space(s.drop_first(), a - 1);
        assert(s.drop_first().skip(a - 1) =~= s.skip(a));
    } else {
        assert(s.skip(0) =~= s);
    }
}

/// Splits a text into its words, as `str::split_whitespace` does.
pub fn split_words(text: &str) -> (r: Vec<String>)
    ensures
        r.deep_view() == words(text@),
{
    let chars = chars_of(text);
    let ghost all = chars@;
    let mut r: Vec<String> = Vec::new();
    let mut start: usize = 0;
    assert(all.skip(0) =~= all);
    assert(r.deep_view() + words(all) =~= words(all));
    while start < chars.len()
        invariant
            all == chars@,
            start <= chars.len(),
            r.deep_view() + words(all.skip(start as int)) == words(all),
        decreases chars.len() - start,
    {
        let ghost rest = all.skip(start as int);
        let ghost before = r.deep_view();
        let mut a: usize = start;
        while a < chars.len() && char_is_space(chars[a])
            invariant
                all == chars@,
                start <= a <= chars.len(),
                forall|j: int| start <= j < a ==> is_space(all[j]),
            decreases chars.len() - a,
        {
            a += 1;
        }
        let mut b: usize = a;
        while b < chars.len() && !char_is_space(chars[b])
            invariant
                all == chars@,
                a <= b <= chars.len(),
                forall|j: int| a <= j < b ==> !is_space(all[j]),
            decreases chars.len() - b,
        {
            b += 1;
        }
        proof {
            let tail = all.skip(a as int);
            lemma_words_skip_space(rest, a - start);
            assert(rest.skip(a - start) =~= tail);
            lemma_word_len(tail, b - a);
            assert(tail.take(b - a) =~= all.subrange(a as int, b as int));
            assert(tail.skip(b - a) =~= all.skip(b as int));
            if b >= chars.len() {
                assert(all.skip(b as int) =~= Seq::<char>::empty());
                assert(tail =~= all.subrange(a as int, b as int));
            }
        }
        if b > a {
            let word = string_of(chars.as_slice(), a, b);
            r.push(word);
            assert(r.deep_view() =~= before + seq![all.subrange(a as int, b as int)]);
        }
        start = b;
        assert(r.deep_view() + words(all.skip(start as int)) =~= before + words(rest));
    }
    assert(all.skip(start as int) =~= Seq::<char>::empty());
    assert(r.deep_view() + Seq::<Seq<char>>::empty() =~= r.deep_view());
    r
}

/// A command as it is shown to the user: a prompt sign, then the words of the
/// command with one blank between each two.
pub open spec fn shown_command(words: Seq<Seq<char>>) -> Seq<char> {
    seq!['>', ' '] + joined(words, seq![' '])
}

/// The line that shows a command to the user.
pub fn command_line(command: &[String]) -> (r: String)
    ensures
        r@ == shown_command(command.deep_view()),
{
    proof {
        reveal_strlit("> ");
        reveal_strlit(" ");
        assert("> "@ =~= seq!['>', ' ']);
        assert(" "@ =~= seq![' ']);
    }
    let mut r = "> ".to_owned();
    let words = join(command, " ");
    r.append(words.as_str());
    r
}

/// The messages that are shown: all of them, or all but the first.
pub open spec fn shown_messages(chain: Seq<Seq<char>>, skip_first: bool) -> Seq<Seq<char>> {
    if skip_first && chain.len() > 0 {
        chain.drop_first()
    } else {
        chain
    }
}

/// Some message runs over several lines.
pub open spec fn is_multiline(messages: Seq<Seq<char>>) -> bool {
    exists|i: int| 0 <= i < messages.len() && (#[trigger] messages[i]).contains('\n')
}

/// The messages of an error and of its causes as one text.
///
/// With `skip_first` the first message is left out. Where a message runs over
/// several lines, each message starts on a line of its own, after a line
/// feed; else they stand on one line with a colon and a blank between them.
pub open spec fn pretty_format(chain: Seq<Seq<char>>, skip_first: bool) -> Seq<char> {
    let shown = shown_messages(chain, skip_first);
    if is_multiline(shown) {
        seq!['\n'] + joined(shown, seq!['\n'])
    } else {
        joined(shown, seq![':', ' '])
    }
}

/// Formats an error for the user from its message and those of its causes,
/// outermost first.
pub fn error_pretty_format(chain: &[String], skip_first: bool) -> (r: String)
    ensures
        r@ == pretty_format(chain.deep_view(), skip_first),
{
    let ghost all = chain.deep_view();
    let first: usize = if skip_first && chain.len() > 0 { 1 } else { 0 };
    let ghost shown = all.skip(first as int);
    proof {
        if first == 0 {
            assert(shown =~= all);
        } else {
            assert(shown =~= all.drop_first());
        }
    }
    let mut s: Vec<String> = Vec::new();
    let mut multiline = false;
    let mut i: usize = first;
    while i < chain.len()
        invariant
            all == chain.deep_view(),
            shown == all.skip(first as int),
            first <= i <= chain.len(),
            s.deep_view() == all.subrange(first as int, i as int),
            multiline <==> exists|j: int| first <= j < i && (#[trigger] all[j]).contains('\n'),
        decreases chain.len() - i,
    {
        let ghost before = s.deep_view();
        if has_char(chain[i].as_str(), '\n') {
            multiline = true;
        }
        s.push(chain[i].clone());
        assert(s.deep_view() =~= before.push(all[i as int]));
        assert(all.subrange(first as int, i + 1) =~= before.push(all[i as int]));
        i += 1;
    }
    proof {
        assert(s.deep_view() =~= shown);
        if multiline {
            let j = choose|j: int| first <= j < i && (#[trigger] all[j]).contains('\n');
            assert(shown[j - first].contains('\n'));
        }
        if is_multiline(shown) {
            let k = choose|k: int| 0 <= k < shown.len() && (#[trigger] shown[k]).contains('\n');
            assert(all[k + first].contains('\n'));
        }
        assert(shown == shown_messages(all, skip_first));
        reveal_strlit("\n");
        reveal_strlit(": ");
        assert("\n"@ =~= seq!['\n']);
        assert(": "@ =~= seq![':', ' ']);
    }
    if multiline {
        let mut r = "\n".to_owned();
        let body = join(s.as_slice(), "\n");
        r.append(body.as_str());
        r
    } else {
        join(s.as_slice(), ": ")
    }
}

} // verus!
