use vstd::prelude::*;
use vstd::string::StringExecFns;
use vstd::string::StrSliceExecFns;

verus! {

/// The characters that may not occur in a file name.
pub open spec fn is_forbidden_char(c: char) -> bool {
    c == '\\' || c == '/' || c == ':' || c == '*' || c == '?' || c == '"' || c == '\''
        || c == '<' || c == '>' || c == '|'
}

/// A valid file name has between 1 and 120 characters, none of them forbidden.
pub open spec fn valid_filename(s: Seq<char>) -> bool {
    &&& 1 <= s.len() <= 120
    &&& forall|i: int| 0 <= i < s.len() ==> !is_forbidden_char(#[trigger] s[i])
}

fn forbidden(c: char) -> (r: bool)
    ensures
        r == is_forbidden_char(c),
{
    c == '\\' || c == '/' || c == ':' || c == '*' || c == '?' || c == '"' || c == '\''
        || c == '<' || c == '>' || c == '|'
}

/// Decides whether `s` can name a file or folder inside a library.
pub fn is_valid_filename(s: &str) -> (r: bool)
    ensures
        r == valid_filename(s@),
{
    let n: usize = s.unicode_len();
    if n == 0 || n > 120 {
        return false;
    }
    let mut i: usize = 0;
    while i < n
        invariant
            n == s@.len(),
            i <= n,
            forall|j: int| 0 <= j < i ==> !is_forbidden_char(#[trigger] s@[j]),
        decreases n - i,
    {
        if forbidden(s.get_char(i)) {
            return false;
        }
        i += 1;
    }
    true
}

/// The decimal digit for `d`, which must be below 10.
pub open spec fn digit_char(d: nat) -> char {
    if d == 0 {
        '0'
    } else if d == 1 {
        '1'
    } else if d == 2 {
        '2'
    } else if d == 3 {
        '3'
    } else if d == 4 {
        '4'
    } else if d == 5 {
        '5'
    } else if d == 6 {
        '6'
    } else if d == 7 {
        '7'
    } else if d == 8 {
        '8'
    } else {
        '9'
    }
}

/// The decimal numeral of `n`, without leading zeros.
pub open spec fn decimal(n: nat) -> Seq<char>
    decreases n,
{
    if n < 10 {
        seq![digit_char(n)]
    } else {
        decimal(n / 10).push(digit_char(n % 10))
    }
}

fn digit_str(d: u64) -> (r: &'static str)
    requires
        d < 10,
    ensures
        r@ == seq![digit_char(d as nat)],
{
    proof {
        reveal_strlit("0");
        reveal_strlit("1");
        reveal_strlit("2");
        reveal_strlit("3");
        reveal_strlit("4");
        reveal_strlit("5");
        reveal_strlit("6");
        reveal_strlit("7");
        reveal_strlit("8");
        reveal_strlit("9");
    }
    let r = if d == 0 {
        "0"
    } else if d == 1 {
        "1"
    } else if d == 2 {
        "2"
    } else if d == 3 {
        "3"
    } else if d == 4 {
        "4"
    } else if d == 5 {
        "5"
    } else if d == 6 {
        "6"
    } else if d == 7 {
        "7"
    } else if d == 8 {
        "8"
    } else {
        "9"
    };
    assert(r@ =~= seq![digit_char(d as nat)]);
    r
}

/// Renders `n` in decimal.
pub fn u64_to_string(n: u64) -> (r: String)
    ensures
        r@ == decimal(n as nat),
    decreases n,
{
    if n < 10 {
        String::from_str(digit_str(n))
    } else {
        let mut s = u64_to_string(n / 10);
        s.append(digit_str(n % 10));
        assert(s@ =~= decimal(n as nat));
        s
    }
}

/// The lower-case form of a text.
pub uninterp spec fn lowercase(s: Seq<char>) -> Seq<char>;

/// `str::to_lowercase`: the lower-case form of `s`, which depends on the
/// text alone.
#[verifier::external_body]
pub(crate) fn to_lowercase(s: &str) -> (r: String)
    ensures
        r@ == lowercase(s@),
{
    s.to_lowercase()
}

/// Whether two strings hold the same text.
pub fn str_eq(a: &str, b: &str) -> (r: bool)
    ensures
        r == (a@ == b@),
{
    String::from_str(a) == String::from_str(b)
}

/// `a` followed by `b`.
pub fn concat2(a: &str, b: &str) -> (r: String)
    ensures
        r@ == a@ + b@,
{
    let mut s = String::from_str(a);
    s.append(b);
    s
}

/// `a`, `b` and `c` one after the other.
pub fn concat3(a: &str, b: &str, c: &str) -> (r: String)
    ensures
        r@ == a@ + b@ + c@,
{
    let mut s = String::from_str(a);
    s.append(b);
    s.append(c);
    s
}


/// The position of the last `.` in `s`, or -1 where it has none.
pub open spec fn last_dot(s: Seq<char>) -> int
    decreases s.len(),
{
    if s.len() == 0 {
        -1
    } else if s.last() == '.' {
        s.len() - 1
    } else {
        last_dot(s.drop_last())
    }
}

/// The extension of a file name: what follows its last `.`, unless that
/// `.` is the first character or there is none.
pub open spec fn extension_of(name: Seq<char>) -> Seq<char> {
    let d = last_dot(name);
    if d <= 0 {
        Seq::<char>::empty()
    } else {
        name.subrange(d + 1, name.len() as int)
    }
}

/// The stem of a file name: what precedes its last `.`, or the whole name
/// where that `.` is the first character or there is none.
pub open spec fn stem_of(name: Seq<char>) -> Seq<char> {
    let d = last_dot(name);
    if d <= 0 {
        name
    } else {
        name.subrange(0, d)
    }
}

/// The last `.` lies inside the text.
pub proof fn lemma_last_dot_range(s: Seq<char>)
    ensures
        -1 <= last_dot(s) < s.len(),
        last_dot(s) >= 0 ==> s[last_dot(s)] == '.',
    decreases s.len(),
{
    if s.len() > 0 && s.last() != '.' {
        lemma_last_dot_range(s.drop_last());
    }
}

fn find_last_dot(s: &str) -> (r: Option<usize>)
    ensures
        match r {
            Some(i) => i == last_dot(s@),
            None => last_dot(s@) == -1,
        },
{
    let n: usize = s.unicode_len();
    let mut i: usize = n;
    assert(s@.take(n as int) =~= s@);
    while i > 0
        invariant
            n == s@.len(),
            i <= n,
            last_dot(s@) == last_dot(s@.take(i as int)),
        decreases i,
    {
        let c = s.get_char(i - 1);
        proof {
            let t = s@.take(i as int);
            assert(t.last() == c);
            assert(t.drop_last() =~= s@.take(i - 1));
        }
        if c == '.' {
            return Some(i - 1);
        }
        i -= 1;
    }
    None
}

/// The extension of the file name `name`.
pub fn file_extension(name: &str) -> (r: String)
    ensures
        r@ == extension_of(name@),
{
    match find_last_dot(name) {
        Some(d) => {
            if d == 0 {
                String::new()
            } else {
                proof {
                    lemma_last_dot_range(name@);
                }
                let n: usize = name.unicode_len();
                String::from_str(name.substring_char(d + 1, n))
            }
        },
        None => String::new(),
    }
}

/// The stem of the file name `name`.
pub fn file_stem(name: &str) -> (r: String)
    ensures
        r@ == stem_of(name@),
{
    match find_last_dot(name) {
        Some(d) => {
            if d == 0 {
                String::from_str(name)
            } else {
                proof {
                    lemma_last_dot_range(name@);
                }
                String::from_str(name.substring_char(0, d))
            }
        },
        None => String::from_str(name),
    }
}

/// Where the content with the hash `hash` lies below `folder`: in the
/// subfolder named by the first two characters of the hash, under the
/// rest of the hash, with `ext` as its extension where that is not empty.
pub open spec fn shard_path(folder: Seq<char>, hash: Seq<char>, ext: Seq<char>) -> Seq<char> {
    folder + "/"@ + hash.subrange(0, 2) + "/"@ + hash.subrange(2, hash.len() as int) + if ext.len()
        > 0 {
        "."@ + ext
    } else {
        Seq::<char>::empty()
    }
}

/// Builds the sharded path of a content file.
pub fn make_shard_path(folder: &str, hash: &str, ext: &str) -> (r: String)
    requires
        hash@.len() >= 2,
    ensures
        r@ == shard_path(folder@, hash@, ext@),
{
    let n: usize = hash.unicode_len();
    let mut out = concat3(folder, "/", hash.substring_char(0, 2));
    out.append("/");
    out.append(hash.substring_char(2, n));
    if ext.unicode_len() > 0 {
        out.append(".");
        out.append(ext);
    }
    assert(out@ =~= shard_path(folder@, hash@, ext@));
    out
}

} // verus!
