//! Small string helpers the renderer and its callers share: joining,
//! first-token extraction, and the article-URL builder.
use vstd::prelude::*;

use vstd::string::StrSliceExecFns;
use vstd::string::StringExecFns;

verus! {

/// Parts joined by a separator; an empty parts list gives the empty
/// string.
pub open spec fn spec_join(parts: Seq<Seq<char>>, sep: Seq<char>) -> Seq<char>
    decreases parts.len(),
{
    if parts.len() == 0 {
        Seq::empty()
    } else if parts.len() == 1 {
        parts[0]
    } else {
        parts[0] + sep + spec_join(parts.drop_first(), sep)
    }
}

/// The prefix of `s` up to the first space: the language token of a
/// fenced code block's info string.
pub open spec fn spec_first_token(s: Seq<char>) -> Seq<char>
    decreases s.len(),
{
    if s.len() == 0 {
        Seq::empty()
    } else if s[0] == ' ' {
        Seq::empty()
    } else {
        seq![s[0]] + spec_first_token(s.drop_first())
    }
}

pub proof fn lemma_spec_join_push(parts: Seq<Seq<char>>, p: Seq<char>, sep: Seq<char>)
    requires
        parts.len() >= 1,
    ensures
        spec_join(parts.push(p), sep) == spec_join(parts, sep) + sep + p,
    decreases parts.len(),
{
    if parts.len() == 1 {
        assert(parts.push(p).drop_first() =~= seq![p]);
        assert(spec_join(seq![p], sep) == p);
        assert(spec_join(parts.push(p), sep) =~= spec_join(parts, sep) + sep + p);
    } else {
        assert(parts.push(p).drop_first() =~= parts.drop_first().push(p));
        lemma_spec_join_push(parts.drop_first(), p, sep);
        assert(spec_join(parts.push(p), sep) =~= spec_join(parts, sep) + sep + p);
    }
}

/// Joins the strings with the separator between neighbours; yields
/// nothing when there are no strings at all.
pub fn join_strings(strings: &Vec<String>, separator: &str) -> (r: Option<String>)
    ensures
        match r {
            Option::Some(s) => strings@.len() > 0 && s@ == spec_join(
                crate::event::strings_view(strings@),
                separator@,
            ),
            Option::None => strings@.len() == 0,
        },
{
    if strings.len() == 0 {
        return Option::None;
    }
    let mut out: String = strings[0].clone();
    let mut i: usize = 1;
    proof {
        assert(crate::event::strings_view(strings@.take(1)) =~= seq![strings@[0]@]);
    }
    while i < strings.len()
        invariant
            1 <= i <= strings@.len(),
            out@ == spec_join(crate::event::strings_view(strings@.take(i as int)), separator@),
        decreases strings@.len() - i,
    {
        out.append(separator);
        out.append(strings[i].as_str());
        proof {
            let prev = crate::event::strings_view(strings@.take(i as int));
            lemma_spec_join_push(prev, strings@[i as int]@, separator@);
            assert(crate::event::strings_view(strings@.take(i as int + 1)) =~= prev.push(
                strings@[i as int]@,
            ));
        }
        i = i + 1;
    }
    proof {
        assert(strings@.take(strings@.len() as int) =~= strings@);
    }
    Option::Some(out)
}

pub proof fn lemma_first_token_prefix(s: Seq<char>, i: int)
    requires
        0 <= i <= s.len(),
        forall|k: int| 0 <= k < i ==> s[k] != ' ',
        i == s.len() || s[i] == ' ',
    ensures
        spec_first_token(s) == s.subrange(0, i),
    decreases i,
{
    if i == 0 {
        assert(s.subrange(0, 0) =~= Seq::<char>::empty());
        if s.len() > 0 {
            assert(s[0] == ' ');
        }
    } else {
        assert(s[0] != ' ');
        lemma_first_token_prefix(s.drop_first(), i - 1);
        assert(seq![s[0]] + s.drop_first().subrange(0, i - 1) =~= s.subrange(0, i));
    }
}

/// The first whitespace-delimited token of a string, where whitespace
/// means a single space as the lexer's info strings use it.
pub fn first_token(s: &str) -> (r: String)
    ensures
        r@ == spec_first_token(s@),
{
    let n = s.unicode_len();
    let mut i: usize = 0;
    let mut stop: bool = false;
    while i < n && !stop
        invariant
            0 <= i <= n,
            n == s@.len(),
            forall|k: int| 0 <= k < i ==> s@[k] != ' ',
            stop ==> i < n && s@[i as int] == ' ',
        decreases n - i + (if stop { 0int } else { 1int }),
    {
        if s.get_char(i) == ' ' {
            stop = true;
        } else {
            i = i + 1;
        }
    }
    proof {
        lemma_first_token_prefix(s@, i as int);
    }
    let sub = s.substring_char(0, i);
    String::from_str(sub)
}


/// Character-wise string equality.
pub fn str_eq(a: &str, b: &str) -> (r: bool)
    ensures
        r == (a@ == b@),
{
    let na = a.unicode_len();
    let nb = b.unicode_len();
    if na != nb {
        return false;
    }
    let mut i: usize = 0;
    while i < na
        invariant
            0 <= i <= na,
            na == a@.len(),
            nb == b@.len(),
            na == nb,
            forall|k: int| 0 <= k < i ==> a@[k] == b@[k],
        decreases na - i,
    {
        if a.get_char(i) != b.get_char(i) {
            return false;
        }
        i = i + 1;
    }
    proof {
        assert(a@ =~= b@);
    }
    true
}

/// The first token is a prefix of its string; the character after it,
/// if the token does not reach the end, is the splitting space.
pub proof fn lemma_first_token_shape(s: Seq<char>)
    ensures
        spec_first_token(s).len() <= s.len(),
        spec_first_token(s) == s.subrange(0, spec_first_token(s).len() as int),
        spec_first_token(s).len() < s.len() ==> s[spec_first_token(s).len() as int] == ' ',
        forall|k: int| 0 <= k < spec_first_token(s).len() ==> s[k] != ' ',
    decreases s.len(),
{
    if s.len() == 0 {
        assert(s.subrange(0, 0) =~= spec_first_token(s));
    } else if s[0] == ' ' {
        assert(s.subrange(0, 0) =~= Seq::<char>::empty());
    } else {
        lemma_first_token_shape(s.drop_first());
        let t = spec_first_token(s);
        let tr = spec_first_token(s.drop_first());
        assert(t == seq![s[0]] + tr);
        assert(t.len() == 1 + tr.len());
        assert(seq![s[0]] + s.drop_first().subrange(0, tr.len() as int) =~= s.subrange(
            0,
            t.len() as int,
        ));
        if t.len() < s.len() {
            assert(s.drop_first()[tr.len() as int] == s[t.len() as int]);
        }
        assert forall|k: int| 0 <= k < t.len() implies s[k] != ' ' by {
            if k > 0 {
                assert(s.drop_first()[k - 1] != ' ');
            }
        }
    }
}

/// Whether a path already names a Markdown file.
pub open spec fn spec_ends_with_md(p: Seq<char>) -> bool {
    p.len() >= 3 && p[p.len() - 3] == '.' && p[p.len() - 2] == 'm' && p[p.len() - 1] == 'd'
}

/// The article URL for a path given as segments: the segments joined
/// by slashes (or `index` when there are none) under the articles
/// root, with `.md` appended unless the path already ends in it.
pub open spec fn spec_article_url(segments: Seq<Seq<char>>) -> Seq<char> {
    let path = if segments.len() == 0 {
        "index"@
    } else {
        spec_join(segments, seq!['/'])
    };
    let base =
        "https://raw.githubusercontent.com/zakarumych/my-dnd-world/refs/heads/main/resources/articles/"@;
    if spec_ends_with_md(path) {
        base + path
    } else {
        base + path + ".md"@
    }
}

/// Builds the URL an article is fetched from.
pub fn article_url(segments: &Vec<String>) -> (r: String)
    ensures
        r@ == spec_article_url(crate::event::strings_view(segments@)),
{
    let path: String = match join_strings(segments, "/") {
        Option::Some(p) => p,
        Option::None => String::from_str("index"),
    };
    proof {
        reveal_strlit("/");
        assert("/"@ =~= seq!['/']);
    }
    let n = path.as_str().unicode_len();
    let ends_md: bool = if n >= 3 {
        path.as_str().get_char(n - 3) == '.' && path.as_str().get_char(n - 2) == 'm'
            && path.as_str().get_char(n - 1) == 'd'
    } else {
        false
    };
    let mut url = String::from_str(
        "https://raw.githubusercontent.com/zakarumych/my-dnd-world/refs/heads/main/resources/articles/",
    );
    url.append(path.as_str());
    if !ends_md {
        url.append(".md");
    }
    url
}
} // verus!
