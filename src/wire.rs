//! The textual wire format, handled as bytes: a frame is `<CODE> <body>`,
//! body fields are separated by `;` and lists are joined by `&&`.
use vstd::prelude::*;

verus! {

pub const SPACE: u8 = 32;

pub const FIELD_SEP: u8 = 59;

pub const LIST_SEP: u8 = 38;

/// `i` is the first position of `d` in `s`.
pub open spec fn first_at(s: Seq<u8>, d: u8, i: int) -> bool {
    &&& 0 <= i < s.len()
    &&& s[i] == d
    &&& forall|j: int| 0 <= j < i ==> s[j] != d
}

/// The parts of `s` before and after the first `d`, if `s` holds one.
pub open spec fn split_once_spec(s: Seq<u8>, d: u8) -> Option<(Seq<u8>, Seq<u8>)> {
    if exists|i: int| first_at(s, d, i) {
        let i = choose|i: int| first_at(s, d, i);
        Some((s.subrange(0, i), s.subrange(i + 1, s.len() as int)))
    } else {
        None
    }
}

/// The list separator `&&`.
pub open spec fn list_sep() -> Seq<u8> {
    seq![LIST_SEP, LIST_SEP]
}

/// `parts` joined with `sep` between each two of them.
pub open spec fn join_spec(parts: Seq<Seq<u8>>, sep: Seq<u8>) -> Seq<u8>
    decreases parts.len(),
{
    if parts.len() == 0 {
        Seq::empty()
    } else if parts.len() == 1 {
        parts[0]
    } else {
        join_spec(parts.drop_last(), sep) + sep + parts.last()
    }
}

/// A `&&` starts at `j` in `s`.
pub open spec fn list_sep_at(s: Seq<u8>, j: int) -> bool {
    0 <= j && j + 1 < s.len() && s[j] == LIST_SEP && s[j + 1] == LIST_SEP
}

/// `i` is where the first `&&` of `s` starts.
pub open spec fn first_list_sep_at(s: Seq<u8>, i: int) -> bool {
    &&& list_sep_at(s, i)
    &&& forall|j: int| 0 <= j < i ==> !list_sep_at(s, j)
}

/// The parts of `s` between its `&&` separators, found from the left, as
/// `str::split("&&")` finds them.
pub open spec fn split_list_spec(s: Seq<u8>) -> Seq<Seq<u8>>
    decreases s.len(),
{
    if exists|i: int| first_list_sep_at(s, i) {
        let i = choose|i: int| first_list_sep_at(s, i);
        seq![s.subrange(0, i)] + split_list_spec(s.subrange(i + 2, s.len() as int))
    } else {
        seq![s]
    }
}

proof fn lemma_first_at_unique(s: Seq<u8>, d: u8, i: int, k: int)
    requires
        first_at(s, d, i),
        first_at(s, d, k),
    ensures
        i == k,
{
    if i < k {
        assert(s[i] != d);
    } else if k < i {
        assert(s[k] != d);
    }
}

/// A copy of `s[lo..hi]`.
pub fn copy_range(s: &[u8], lo: usize, hi: usize) -> (r: Vec<u8>)
    requires
        lo <= hi <= s@.len(),
    ensures
        r@ == s@.subrange(lo as int, hi as int),
{
    let mut r: Vec<u8> = Vec::new();
    let mut i: usize = lo;
    while i < hi
        invariant
            lo <= i <= hi <= s@.len(),
            r@ == s@.subrange(lo as int, i as int),
        decreases hi - i,
    {
        r.push(s[i]);
        assert(r@ =~= s@.subrange(lo as int, i + 1));
        i = i + 1;
    }
    r
}

/// Appends a copy of `src` to `dst`.
pub fn append_bytes(dst: &mut Vec<u8>, src: &[u8])
    ensures
        final(dst)@ == old(dst)@ + src@,
{
    let ghost start = dst@;
    let mut i: usize = 0;
    while i < src.len()
        invariant
            0 <= i <= src@.len(),
            dst@ == start + src@.subrange(0, i as int),
        decreases src@.len() - i,
    {
        dst.push(src[i]);
        assert(dst@ =~= start + src@.subrange(0, i + 1));
        i = i + 1;
    }
    assert(src@.subrange(0, src@.len() as int) =~= src@);
}

/// Whether two byte strings are equal.
pub fn bytes_eq(a: &[u8], b: &[u8]) -> (r: bool)
    ensures
        r == (a@ == b@),
{
    if a.len() != b.len() {
        return false;
    }
    let mut i: usize = 0;
    while i < a.len()
        invariant
            0 <= i <= a@.len(),
            a@.len() == b@.len(),
            forall|j: int| 0 <= j < i ==> a@[j] == b@[j],
        decreases a@.len() - i,
    {
        if a[i] != b[i] {
            return false;
        }
        i = i + 1;
    }
    assert(a@ =~= b@);
    true
}

/// A copy of all of `s`.
pub fn copy_all(s: &[u8]) -> (r: Vec<u8>)
    ensures
        r@ == s@,
{
    let r = copy_range(s, 0, s.len());
    assert(r@ =~= s@);
    r
}

/// `a;b`
pub open spec fn fields2(a: Seq<u8>, b: Seq<u8>) -> Seq<u8> {
    a + seq![FIELD_SEP] + b
}

/// `a;b`
pub fn join_fields(a: &[u8], b: &[u8]) -> (r: Vec<u8>)
    ensures
        r@ == fields2(a@, b@),
{
    let mut r: Vec<u8> = Vec::new();
    append_bytes(&mut r, a);
    r.push(FIELD_SEP);
    append_bytes(&mut r, b);
    assert(r@ =~= fields2(a@, b@));
    r
}

/// Splits `s` at its first `d`, as `str::split_once` does.
pub fn split_once(s: &[u8], d: u8) -> (r: Option<(Vec<u8>, Vec<u8>)>)
    ensures
        match r {
            Some((a, b)) => split_once_spec(s@, d) == Some((a@, b@)),
            None => split_once_spec(s@, d) is None,
        },
{
    let mut i: usize = 0;
    while i < s.len()
        invariant
            0 <= i <= s@.len(),
            forall|j: int| 0 <= j < i ==> s@[j] != d,
        decreases s@.len() - i,
    {
        if s[i] == d {
            assert(first_at(s@, d, i as int));
            proof {
                let k = choose|k: int| first_at(s@, d, k);
                lemma_first_at_unique(s@, d, i as int, k);
            }
            let a = copy_range(s, 0, i);
            let b = copy_range(s, i + 1, s.len());
            return Some((a, b));
        }
        i = i + 1;
    }
    assert(!exists|k: int| first_at(s@, d, k));
    None
}

/// Splits `s` at each `&&`, from the left.
pub fn split_list(s: &[u8]) -> (r: Vec<Vec<u8>>)
    ensures
        r@.map_values(|p: Vec<u8>| p@) == split_list_spec(s@),
{
    let mut parts: Vec<Vec<u8>> = Vec::new();
    let mut start: usize = 0;
    let mut j: usize = 0;
    assert(s@.subrange(0, s@.len() as int) =~= s@);
    assert(parts@.map_values(|p: Vec<u8>| p@) + split_list_spec(s@) =~= split_list_spec(s@));
    while j < s.len()
        invariant
            0 <= start <= j <= s@.len(),
            parts@.map_values(|p: Vec<u8>| p@) + split_list_spec(s@.subrange(start as int, s@.len() as int))
                == split_list_spec(s@),
            forall|k: int| start <= k < j ==> !list_sep_at(s@, k),
        decreases s@.len() - j,
    {
        if j + 1 < s.len() && s[j] == LIST_SEP && s[j + 1] == LIST_SEP {
            let ghost rest = s@.subrange(start as int, s@.len() as int);
            let ghost i = j - start;
            assert(first_list_sep_at(rest, i)) by {
                assert forall|k: int| 0 <= k < i implies !list_sep_at(rest, k) by {
                    assert(rest[k] == s@[start + k]);
                    assert(rest[k + 1] == s@[start + k + 1]);
                    assert(!list_sep_at(s@, start + k));
                }
            }
            proof {
                let c = choose|c: int| first_list_sep_at(rest, c);
                if c < i {
                    assert(!list_sep_at(rest, c));
                }
                if i < c {
                    assert(!list_sep_at(rest, i));
                }
                assert(rest.subrange(0, i) =~= s@.subrange(start as int, j as int));
                assert(rest.subrange(i + 2, rest.len() as int) =~= s@.subrange(j + 2, s@.len() as int));
            }
            let part = copy_range(s, start, j);
            let ghost before = parts@.map_values(|p: Vec<u8>| p@);
            parts.push(part);
            assert(parts@.map_values(|p: Vec<u8>| p@) =~= before.push(part@));
            assert(before.push(part@) + split_list_spec(s@.subrange(j + 2, s@.len() as int)) =~= before + (
                seq![part@] + split_list_spec(s@.subrange(j + 2, s@.len() as int))
            ));
            start = j + 2;
            j = j + 2;
        } else {
            j = j + 1;
        }
    }
    let ghost rest = s@.subrange(start as int, s@.len() as int);
    assert(!exists|i: int| first_list_sep_at(rest, i)) by {
        if exists|i: int| first_list_sep_at(rest, i) {
            let i = choose|i: int| first_list_sep_at(rest, i);
            assert(rest[i] == s@[start + i]);
            assert(rest[i + 1] == s@[start + i + 1]);
            assert(list_sep_at(s@, start + i));
        }
    }
    let last = copy_range(s, start, s.len());
    let ghost before = parts@.map_values(|p: Vec<u8>| p@);
    parts.push(last);
    assert(parts@.map_values(|p: Vec<u8>| p@) =~= before.push(last@));
    assert(before.push(last@) =~= before + seq![rest]);
    parts
}

/// `parts` joined by `sep`.
pub fn join(parts: &Vec<Vec<u8>>, sep: &[u8]) -> (r: Vec<u8>)
    ensures
        r@ == join_spec(parts@.map_values(|p: Vec<u8>| p@), sep@),
{
    let ghost views = parts@.map_values(|p: Vec<u8>| p@);
    let mut r: Vec<u8> = Vec::new();
    let mut i: usize = 0;
    while i < parts.len()
        invariant
            0 <= i <= parts@.len(),
            views == parts@.map_values(|p: Vec<u8>| p@),
            r@ == join_spec(views.subrange(0, i as int), sep@),
        decreases parts@.len() - i,
    {
        assert(views.subrange(0, i + 1).drop_last() =~= views.subrange(0, i as int));
        if i > 0 {
            append_bytes(&mut r, sep);
        }
        append_bytes(&mut r, parts[i].as_slice());
        if i == 0 {
            assert(r@ =~= join_spec(views.subrange(0, 1), sep@));
        }
        i = i + 1;
    }
    assert(views.subrange(0, parts@.len() as int) =~= views);
    r
}

/// The code that opens a frame.
#[derive(PartialEq, Eq, Structural, Debug, Clone, Copy)]
pub enum Code {
    Init,
    Send,
    Ack,
    Cache,
    Update,
    IpFetch,
    IpRetrieval,
    Buddies,
    NotFound,
    Shutdown,
    Unrecognized,
}

/// The text of each recognized code.
pub open spec fn code_text(c: Code) -> Seq<u8> {
    match c {
        Code::Init => seq![73, 78, 73, 84],
        Code::Send => seq![83, 69, 78, 68],
        Code::Ack => seq![65, 67, 75],
        Code::Cache => seq![67, 65, 67, 72, 69],
        Code::Update => seq![85, 80, 68, 65, 84, 69],
        Code::IpFetch => seq![73, 80, 95, 70, 69, 84, 67, 72],
        Code::IpRetrieval => seq![
            73, 80, 95, 82, 69, 84, 82, 73, 69, 86, 65, 76,
        ],
        Code::Buddies => seq![66, 85, 68, 68, 73, 69, 83],
        Code::NotFound => seq![52, 48, 52],
        Code::Shutdown => seq![83, 72, 85, 84, 68, 79, 87, 78],
        Code::Unrecognized => Seq::empty(),
    }
}

/// The code that the word `w` names.
pub open spec fn code_of(w: Seq<u8>) -> Code {
    if w == code_text(Code::Init) {
        Code::Init
    } else if w == code_text(Code::Send) {
        Code::Send
    } else if w == code_text(Code::Ack) {
        Code::Ack
    } else if w == code_text(Code::Cache) {
        Code::Cache
    } else if w == code_text(Code::Update) {
        Code::Update
    } else if w == code_text(Code::IpFetch) {
        Code::IpFetch
    } else if w == code_text(Code::IpRetrieval) {
        Code::IpRetrieval
    } else if w == code_text(Code::Buddies) {
        Code::Buddies
    } else if w == code_text(Code::NotFound) {
        Code::NotFound
    } else if w == code_text(Code::Shutdown) {
        Code::Shutdown
    } else {
        Code::Unrecognized
    }
}

/// A frame split into its code and its body; `None` where it has no space.
pub open spec fn parse_frame_spec(f: Seq<u8>) -> Option<(Code, Seq<u8>)> {
    match split_once_spec(f, SPACE) {
        Some((head, body)) => Some((code_of(head), body)),
        None => None,
    }
}

/// The frame `<code> <body>`.
pub open spec fn frame_spec(c: Code, body: Seq<u8>) -> Seq<u8> {
    code_text(c) + seq![SPACE] + body
}

/// The text of code `c`.
pub fn code_bytes(c: Code) -> (r: Vec<u8>)
    ensures
        r@ == code_text(c),
{
    let r = match c {
        Code::Init => vec![73, 78, 73, 84],
        Code::Send => vec![83, 69, 78, 68],
        Code::Ack => vec![65, 67, 75],
        Code::Cache => vec![67, 65, 67, 72, 69],
        Code::Update => vec![85, 80, 68, 65, 84, 69],
        Code::IpFetch => vec![73, 80, 95, 70, 69, 84, 67, 72],
        Code::IpRetrieval => vec![
            73, 80, 95, 82, 69, 84, 82, 73, 69, 86, 65, 76,
        ],
        Code::Buddies => vec![66, 85, 68, 68, 73, 69, 83],
        Code::NotFound => vec![52, 48, 52],
        Code::Shutdown => vec![83, 72, 85, 84, 68, 79, 87, 78],
        Code::Unrecognized => Vec::new(),
    };
    assert(r@ =~= code_text(c));
    r
}

/// The code that `w` names.
pub fn parse_code(w: &[u8]) -> (c: Code)
    ensures
        c == code_of(w@),
{
    if bytes_eq(w, code_bytes(Code::Init).as_slice()) {
        Code::Init
    } else if bytes_eq(w, code_bytes(Code::Send).as_slice()) {
        Code::Send
    } else if bytes_eq(w, code_bytes(Code::Ack).as_slice()) {
        Code::Ack
    } else if bytes_eq(w, code_bytes(Code::Cache).as_slice()) {
        Code::Cache
    } else if bytes_eq(w, code_bytes(Code::Update).as_slice()) {
        Code::Update
    } else if bytes_eq(w, code_bytes(Code::IpFetch).as_slice()) {
        Code::IpFetch
    } else if bytes_eq(w, code_bytes(Code::IpRetrieval).as_slice()) {
        Code::IpRetrieval
    } else if bytes_eq(w, code_bytes(Code::Buddies).as_slice()) {
        Code::Buddies
    } else if bytes_eq(w, code_bytes(Code::NotFound).as_slice()) {
        Code::NotFound
    } else if bytes_eq(w, code_bytes(Code::Shutdown).as_slice()) {
        Code::Shutdown
    } else {
        Code::Unrecognized
    }
}

/// Splits a frame into its code and body.
pub fn parse_frame(f: &[u8]) -> (r: Option<(Code, Vec<u8>)>)
    ensures
        match r {
            Some((c, body)) => parse_frame_spec(f@) == Some((c, body@)),
            None => parse_frame_spec(f@) is None,
        },
{
    match split_once(f, SPACE) {
        Some((head, body)) => Some((parse_code(head.as_slice()), body)),
        None => None,
    }
}

/// The frame `<code> <body>`.
pub fn make_frame(c: Code, body: &[u8]) -> (r: Vec<u8>)
    ensures
        r@ == frame_spec(c, body@),
{
    let mut r = code_bytes(c);
    r.push(SPACE);
    append_bytes(&mut r, body);
    r
}

} // verus!
