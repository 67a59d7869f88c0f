use vstd::prelude::*;

verus! {

/// The separator between path components.
pub const SEPARATOR: char = '/';

/// Position of the last occurrence of `c` in `s`, or -1 when `c` does not occur.
pub open spec fn last_pos(s: Seq<char>, c: char) -> int
    decreases s.len(),
{
    if s.len() == 0 {
        -1
    } else if s.last() == c {
        s.len() - 1
    } else {
        last_pos(s.drop_last(), c)
    }
}

/// The final component of a path: what follows its last separator.
pub open spec fn base_name_of(p: Seq<char>) -> Seq<char> {
    p.subrange(last_pos(p, SEPARATOR) + 1, p.len() as int)
}

/// The extension of a path with its leading dot (".mp3"), or empty where the
/// final component has no dot, or only one that starts it (".hidden").
pub open spec fn extension_of(p: Seq<char>) -> Seq<char> {
    let b = base_name_of(p);
    let d = last_pos(b, '.');
    if d <= 0 {
        Seq::empty()
    } else {
        seq!['.'] + b.subrange(d + 1, b.len() as int)
    }
}

/// The directory that holds a path: what precedes its last separator, or
/// empty where it has none.
pub open spec fn directory_of(p: Seq<char>) -> Seq<char> {
    let k = last_pos(p, SEPARATOR);
    if k < 0 {
        Seq::empty()
    } else {
        p.subrange(0, k)
    }
}

/// `root/artist/album/title` followed directly by the extension.
pub open spec fn destination_of(
    root: Seq<char>,
    artist: Seq<char>,
    album: Seq<char>,
    title: Seq<char>,
    extension: Seq<char>,
) -> Seq<char> {
    root + seq![SEPARATOR] + artist + seq![SEPARATOR] + album + seq![SEPARATOR] + title
        + extension
}

proof fn lemma_last_pos_bounds(s: Seq<char>, c: char)
    ensures
        -1 <= last_pos(s, c) < s.len(),
        last_pos(s, c) >= 0 ==> s[last_pos(s, c)] == c,
    decreases s.len(),
{
    if s.len() > 0 && s.last() != c {
        lemma_last_pos_bounds(s.drop_last(), c);
    }
}

/// Finds the last occurrence of `c` in `s`.
fn find_last(s: &str, c: char) -> (r: Option<usize>)
    ensures
        match r {
            Some(k) => k == last_pos(s@, c),
            None => last_pos(s@, c) == -1,
        },
{
    let n = s.unicode_len();
    let mut found: Option<usize> = None;
    let mut i: usize = 0;
    while i < n
        invariant
            n == s@.len(),
            i <= n,
            match found {
                Some(k) => k == last_pos(s@.subrange(0, i as int), c),
                None => last_pos(s@.subrange(0, i as int), c) == -1,
            },
        decreases n - i,
    {
        let ch = s.get_char(i);
        assert(s@.subrange(0, i as int + 1).drop_last() =~= s@.subrange(0, i as int));
        if ch == c {
            found = Some(i);
        }
        i = i + 1;
    }
    assert(s@.subrange(0, n as int) =~= s@);
    found
}

/// The final component of `path`: what follows its last separator.
pub fn base_name(path: &str) -> (r: String)
    ensures
        r@ == base_name_of(path@),
{
    proof {
        lemma_last_pos_bounds(path@, SEPARATOR);
    }
    let n = path.unicode_len();
    let start: usize = match find_last(path, SEPARATOR) {
        Some(k) => k + 1,
        None => 0,
    };
    String::from_str(path.substring_char(start, n))
}

/// The extension of `path` with its leading dot, or empty where it has none.
pub fn extension(path: &str) -> (r: String)
    ensures
        r@ == extension_of(path@),
{
    let b = base_name(path);
    let bs = b.as_str();
    proof {
        lemma_last_pos_bounds(bs@, '.');
    }
    match find_last(bs, '.') {
        Some(d) => {
            if d == 0 {
                String::new()
            } else {
                let n = bs.unicode_len();
                let mut r = String::from_str(".");
                proof {
                    reveal_strlit(".");
                }
                r.append(bs.substring_char(d + 1, n));
                r
            }
        },
        None => String::new(),
    }
}

/// The directory that holds `path`, or empty where it has no separator.
pub fn parent_dir(path: &str) -> (r: String)
    ensures
        r@ == directory_of(path@),
{
    proof {
        lemma_last_pos_bounds(path@, SEPARATOR);
    }
    match find_last(path, SEPARATOR) {
        Some(k) => String::from_str(path.substring_char(0, k)),
        None => String::new(),
    }
}

/// The destination path of a track: `root/artist/album/title` followed
/// directly by `extension`, with no change to any part.
pub fn build(root: &str, artist: &str, album: &str, title: &str, extension: &str) -> (r: String)
    ensures
        r@ == destination_of(root@, artist@, album@, title@, extension@),
{
    let mut r = String::from_str(root);
    proof {
        reveal_strlit("/");
    }
    r.append("/");
    r.append(artist);
    r.append("/");
    r.append(album);
    r.append("/");
    r.append(title);
    r.append(extension);
    r
}

/// The destination is a function of its five parts: any two results of
/// `build` on equal parts are the same path.
pub proof fn lemma_build_deterministic(
    root: Seq<char>,
    artist: Seq<char>,
    album: Seq<char>,
    title: Seq<char>,
    extension: Seq<char>,
    first: Seq<char>,
    second: Seq<char>,
)
    requires
        first == destination_of(root, artist, album, title, extension),
        second == destination_of(root, artist, album, title, extension),
    ensures
        first == second,
{
}

} // verus!
