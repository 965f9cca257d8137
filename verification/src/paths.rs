//! Paths as texts, read by the rules of the platform they belong to.
//!
//! A path is cut into components: an optional prefix (a drive, a network share, a verbatim or a
//! device form; Windows only), an optional root, and the names below it. Repeated separators and
//! inner `.` names do not count, so two spellings of one path have equal components.
use vstd::prelude::*;

use crate::text::{chars_of, found_at, text_of, texts};

verus! {

/// The platform whose rules a path follows.
#[derive(Clone, Copy, Debug, PartialEq, Eq, Structural)]
pub enum Platform {
    /// `/` separates; there are no prefixes.
    Unix,
    /// `\` and `/` separate; drives, shares and verbatim forms are prefixes.
    Windows,
}

/// The kinds of prefix a path can begin with.
#[derive(Clone, Copy, Debug, PartialEq, Eq, Structural)]
pub enum PrefixKind {
    /// No prefix.
    Absent,
    /// `C:`
    Disk,
    /// `\\?\C:`
    VerbatimDisk,
    /// `\\?\name`
    Verbatim,
    /// `\\?\UNC\server\share`
    VerbatimUnc,
    /// `\\.\name`
    DeviceNs,
    /// `\\server\share`
    Unc,
}

impl PrefixKind {
    /// Whether the prefix is one of the literal `\\?\` forms.
    pub open spec fn is_verbatim(self) -> bool {
        self is VerbatimDisk || self is Verbatim || self is VerbatimUnc
    }

    /// Whether the prefix stands for a root by itself.
    pub open spec fn has_implicit_root(self) -> bool {
        !(self is Absent) && !(self is Disk)
    }

    fn verbatim(self) -> (r: bool)
        ensures
            r == self.is_verbatim(),
    {
        match self {
            PrefixKind::VerbatimDisk | PrefixKind::Verbatim | PrefixKind::VerbatimUnc => true,
            _ => false,
        }
    }

    fn implicit_root(self) -> (r: bool)
        ensures
            r == self.has_implicit_root(),
    {
        match self {
            PrefixKind::Absent | PrefixKind::Disk => false,
            _ => true,
        }
    }
}

/// A prefix as it was read: its kind, its one or two names, and how many characters it takes.
pub struct PrefixView {
    pub kind: PrefixKind,
    pub first: Seq<char>,
    pub second: Seq<char>,
    pub len: int,
}

/// Whether `c` separates names on the platform.
pub open spec fn is_separator(platform: Platform, c: char) -> bool {
    c == '/' || (platform is Windows && c == '\\')
}

/// Whether `c` separates the names that follow a prefix: in verbatim paths only `\` does.
pub open spec fn separates(platform: Platform, verbatim: bool, c: char) -> bool {
    if verbatim {
        c == '\\'
    } else {
        is_separator(platform, c)
    }
}

/// The first position at or after `from` that holds a separator, or the length.
pub open spec fn next_separator(s: Seq<char>, from: int, platform: Platform, verbatim: bool) -> int
    decreases s.len() - from,
{
    if from >= s.len() {
        s.len() as int
    } else if separates(platform, verbatim, s[from]) {
        from
    } else {
        next_separator(s, from + 1, platform, verbatim)
    }
}

pub open spec fn is_drive_letter(c: char) -> bool {
    ('a' <= c && c <= 'z') || ('A' <= c && c <= 'Z')
}

/// The capital form of an ASCII letter; other characters stay.
pub open spec fn capital(c: char) -> char {
    if 'a' <= c && c <= 'z' {
        (c as u32 - 32) as char
    } else {
        c
    }
}

/// Two names behind `start`, each ended by a separator, with `kind` and the characters they take.
pub open spec fn two_names(s: Seq<char>, start: int, verbatim: bool, kind: PrefixKind) -> PrefixView {
    let a = next_separator(s, start, Platform::Windows, verbatim);
    let from = if a < s.len() { a + 1 } else { s.len() as int };
    let b = next_separator(s, from, Platform::Windows, verbatim);
    let second = s.subrange(from, b);
    PrefixView {
        kind,
        first: s.subrange(start, a),
        second,
        len: if second.len() > 0 { b } else { a },
    }
}

/// One name behind `start`.
pub open spec fn one_name(s: Seq<char>, start: int, verbatim: bool, kind: PrefixKind) -> PrefixView {
    let a = next_separator(s, start, Platform::Windows, verbatim);
    PrefixView { kind, first: s.subrange(start, a), second: Seq::empty(), len: a }
}

pub open spec fn no_prefix() -> PrefixView {
    PrefixView { kind: PrefixKind::Absent, first: Seq::empty(), second: Seq::empty(), len: 0 }
}

/// The prefix that a path begins with.
pub open spec fn prefix_of(platform: Platform, s: Seq<char>) -> PrefixView {
    let w = Platform::Windows;
    if platform is Unix {
        no_prefix()
    } else if s.len() >= 2 && is_separator(w, s[0]) && is_separator(w, s[1]) {
        if s.len() >= 4 && s[0] == '\\' && s[1] == '\\' && s[2] == '?' && s[3] == '\\' {
            if s.len() >= 8 && s[4] == 'U' && s[5] == 'N' && s[6] == 'C' && is_separator(w, s[7]) {
                two_names(s, 8, true, PrefixKind::VerbatimUnc)
            } else if s.len() >= 6 && is_drive_letter(s[4]) && s[5] == ':' && (s.len() == 6
                || is_separator(w, s[6])) {
                PrefixView {
                    kind: PrefixKind::VerbatimDisk,
                    first: seq![capital(s[4])],
                    second: Seq::empty(),
                    len: 6,
                }
            } else {
                one_name(s, 4, true, PrefixKind::Verbatim)
            }
        } else if s.len() >= 4 && s[2] == '.' && is_separator(w, s[3]) {
            one_name(s, 4, false, PrefixKind::DeviceNs)
        } else {
            let p = two_names(s, 2, false, PrefixKind::Unc);
            if p.first.len() > 0 && p.second.len() > 0 {
                p
            } else {
                no_prefix()
            }
        }
    } else if s.len() >= 2 && is_drive_letter(s[0]) && s[1] == ':' {
        PrefixView {
            kind: PrefixKind::Disk,
            first: seq![capital(s[0])],
            second: Seq::empty(),
            len: 2,
        }
    } else {
        no_prefix()
    }
}

/// A prefix as it was read from a text.
pub struct PathPrefix {
    pub kind: PrefixKind,
    pub first: Vec<char>,
    pub second: Vec<char>,
    pub len: usize,
}

impl View for PathPrefix {
    type V = PrefixView;

    open spec fn view(&self) -> PrefixView {
        PrefixView {
            kind: self.kind,
            first: self.first@,
            second: self.second@,
            len: self.len as int,
        }
    }
}

fn separator(platform: Platform, c: char) -> (r: bool)
    ensures
        r == is_separator(platform, c),
{
    match platform {
        Platform::Unix => c == '/',
        Platform::Windows => c == '/' || c == '\\',
    }
}

fn separator_in(platform: Platform, verbatim: bool, c: char) -> (r: bool)
    ensures
        r == separates(platform, verbatim, c),
{
    if verbatim {
        c == '\\'
    } else {
        separator(platform, c)
    }
}

fn drive_letter(c: char) -> (r: bool)
    ensures
        r == is_drive_letter(c),
{
    ('a' <= c && c <= 'z') || ('A' <= c && c <= 'Z')
}

fn find_separator(v: &Vec<char>, from: usize, platform: Platform, verbatim: bool) -> (r: usize)
    requires
        from <= v.len(),
    ensures
        r == next_separator(v@, from as int, platform, verbatim),
        from <= r <= v.len(),
{
    let mut i: usize = from;
    while i < v.len()
        invariant
            from <= i <= v.len(),
            next_separator(v@, from as int, platform, verbatim) == next_separator(v@, i as int, platform, verbatim),
        decreases v.len() - i,
    {
        if separator_in(platform, verbatim, v[i]) {
            return i;
        }
        i = i + 1;
    }
    v.len()
}

fn slice_of(v: &Vec<char>, from: usize, to: usize) -> (r: Vec<char>)
    requires
        from <= to <= v.len(),
    ensures
        r@ == v@.subrange(from as int, to as int),
{
    let mut r: Vec<char> = Vec::new();
    let mut i: usize = from;
    while i < to
        invariant
            from <= i <= to <= v.len(),
            r@ == v@.subrange(from as int, i as int),
        decreases to - i,
    {
        r.push(v[i]);
        i = i + 1;
        assert(r@ =~= v@.subrange(from as int, i as int));
    }
    r
}

fn capital_of(c: char) -> (r: char)
    requires
        is_drive_letter(c),
    ensures
        r == capital(c),
{
    if 'a' <= c && c <= 'z' {
        let code: u8 = c as u8;
        (code - 32) as char
    } else {
        c
    }
}

fn read_one_name(v: &Vec<char>, start: usize, verbatim: bool, kind: PrefixKind) -> (r: PathPrefix)
    requires
        start <= v.len(),
    ensures
        r@ == one_name(v@, start as int, verbatim, kind),
        r.len <= v.len(),
{
    let a: usize = find_separator(v, start, Platform::Windows, verbatim);
    let r = PathPrefix { kind, first: slice_of(v, start, a), second: Vec::new(), len: a };
    assert(r.second@ =~= Seq::<char>::empty());
    r
}

fn read_two_names(v: &Vec<char>, start: usize, verbatim: bool, kind: PrefixKind) -> (r: PathPrefix)
    requires
        start <= v.len(),
    ensures
        r@ == two_names(v@, start as int, verbatim, kind),
        r.len <= v.len(),
{
    let a: usize = find_separator(v, start, Platform::Windows, verbatim);
    let from: usize = if a < v.len() {
        a + 1
    } else {
        v.len()
    };
    let b: usize = find_separator(v, from, Platform::Windows, verbatim);
    let second = slice_of(v, from, b);
    let len: usize = if second.len() > 0 {
        b
    } else {
        a
    };
    PathPrefix { kind, first: slice_of(v, start, a), second, len }
}

fn read_drive(kind: PrefixKind, letter: char, len: usize) -> (r: PathPrefix)
    requires
        is_drive_letter(letter),
    ensures
        r@ == (PrefixView { kind, first: seq![capital(letter)], second: Seq::empty(), len: len as int }),
{
    let mut first: Vec<char> = Vec::new();
    first.push(capital_of(letter));
    let r = PathPrefix { kind, first, second: Vec::new(), len };
    assert(r.first@ =~= seq![capital(letter)]);
    assert(r.second@ =~= Seq::<char>::empty());
    r
}

fn read_nothing() -> (r: PathPrefix)
    ensures
        r@ == no_prefix(),
        r.len == 0,
{
    let r = PathPrefix { kind: PrefixKind::Absent, first: Vec::new(), second: Vec::new(), len: 0 };
    assert(r.first@ =~= Seq::<char>::empty());
    assert(r.second@ =~= Seq::<char>::empty());
    r
}

fn read_prefix(platform: Platform, v: &Vec<char>) -> (r: PathPrefix)
    ensures
        r@ == prefix_of(platform, v@),
        r.len <= v.len(),
{
    let w = Platform::Windows;
    match platform {
        Platform::Unix => read_nothing(),
        Platform::Windows => {
            if v.len() >= 2 && separator(w, v[0]) && separator(w, v[1]) {
                if v.len() >= 4 && v[0] == '\\' && v[1] == '\\' && v[2] == '?' && v[3] == '\\' {
                    if v.len() >= 8 && v[4] == 'U' && v[5] == 'N' && v[6] == 'C' && separator(w, v[7]) {
                        read_two_names(v, 8, true, PrefixKind::VerbatimUnc)
                    } else if v.len() >= 6 && drive_letter(v[4]) && v[5] == ':' && (v.len() == 6
                        || separator(w, v[6])) {
                        read_drive(PrefixKind::VerbatimDisk, v[4], 6)
                    } else {
                        read_one_name(v, 4, true, PrefixKind::Verbatim)
                    }
                } else if v.len() >= 4 && v[2] == '.' && separator(w, v[3]) {
                    read_one_name(v, 4, false, PrefixKind::DeviceNs)
                } else {
                    let p = read_two_names(v, 2, false, PrefixKind::Unc);
                    if p.first.len() > 0 && p.second.len() > 0 {
                        p
                    } else {
                        read_nothing()
                    }
                }
            } else if v.len() >= 2 && drive_letter(v[0]) && v[1] == ':' {
                read_drive(PrefixKind::Disk, v[0], 2)
            } else {
                read_nothing()
            }
        },
    }
}

/// The text that stands for a prefix among the components. Network shares are written with `/`,
/// so that no share is mistaken for a verbatim name.
pub open spec fn prefix_text(p: PrefixView) -> Seq<char> {
    match p.kind {
        PrefixKind::Absent => Seq::empty(),
        PrefixKind::Disk => p.first.push(':'),
        PrefixKind::VerbatimDisk => seq!['\\', '\\', '?', '\\'] + p.first.push(':'),
        PrefixKind::Verbatim => seq!['\\', '\\', '?', '\\'] + p.first,
        PrefixKind::VerbatimUnc => seq!['\\', '\\', '?', '\\', 'U', 'N', 'C', '\\'] + p.first
            + seq!['\\'] + p.second,
        PrefixKind::DeviceNs => seq!['\\', '\\', '.', '\\'] + p.first,
        PrefixKind::Unc => seq!['/', '/'] + p.first + seq!['/'] + p.second,
    }
}

/// The pieces between the separators, empty ones included.
pub open spec fn split(s: Seq<char>, platform: Platform, verbatim: bool) -> Seq<Seq<char>>
    decreases s.len(),
{
    if s.len() == 0 {
        seq![Seq::empty()]
    } else {
        let init = split(s.drop_last(), platform, verbatim);
        if separates(platform, verbatim, s.last()) {
            init.push(Seq::empty())
        } else {
            init.drop_last().push(init.last().push(s.last()))
        }
    }
}

/// Whether the piece at place `i` counts as a name: empty pieces never do, and `.` only in
/// verbatim paths or at the very beginning of a path without a root.
pub open spec fn counts(piece: Seq<char>, i: int, verbatim: bool, has_root: bool) -> bool {
    piece.len() > 0 && (piece != seq!['.'] || verbatim || (i == 0 && !has_root))
}

/// The pieces that count as names, in order.
pub open spec fn names_among(pieces: Seq<Seq<char>>, verbatim: bool, has_root: bool) -> Seq<Seq<char>>
    decreases pieces.len(),
{
    if pieces.len() == 0 {
        Seq::empty()
    } else {
        let init = names_among(pieces.drop_last(), verbatim, has_root);
        if counts(pieces.last(), pieces.len() - 1, verbatim, has_root) {
            init.push(pieces.last())
        } else {
            init
        }
    }
}

/// Whether a separator stands right behind the prefix.
pub open spec fn has_physical_root(platform: Platform, s: Seq<char>) -> bool {
    let p = prefix_of(platform, s);
    p.len < s.len() && is_separator(platform, s[p.len])
}

/// Whether the path starts at a root, written out or implied by its prefix.
pub open spec fn has_root(platform: Platform, s: Seq<char>) -> bool {
    has_physical_root(platform, s) || prefix_of(platform, s).kind.has_implicit_root()
}

/// Whether a root counts among the components.
pub open spec fn has_root_component(platform: Platform, s: Seq<char>) -> bool {
    let kind = prefix_of(platform, s).kind;
    has_physical_root(platform, s) || (kind.has_implicit_root() && !kind.is_verbatim())
}

/// The names of a path, below its prefix and root.
pub open spec fn names(platform: Platform, s: Seq<char>) -> Seq<Seq<char>> {
    let p = prefix_of(platform, s);
    let start = if has_physical_root(platform, s) { p.len + 1 } else { p.len };
    let verbatim = p.kind.is_verbatim();
    names_among(
        split(s.subrange(start, s.len() as int), platform, verbatim),
        verbatim,
        has_root(platform, s),
    )
}

/// The mark that stands for the root among the components. No name holds it.
pub open spec fn root_mark(platform: Platform) -> Seq<char> {
    if platform is Windows {
        seq!['\\']
    } else {
        seq!['/']
    }
}

/// The components of a path: its prefix, its root and its names.
#[verifier::opaque]
pub open spec fn components(platform: Platform, s: Seq<char>) -> Seq<Seq<char>> {
    let p = prefix_of(platform, s);
    let head: Seq<Seq<char>> = if p.kind is Absent { Seq::empty() } else { seq![prefix_text(p)] };
    let root: Seq<Seq<char>> = if has_root_component(platform, s) {
        seq![root_mark(platform)]
    } else {
        Seq::empty()
    };
    head + root + names(platform, s)
}

fn split_pieces(v: &Vec<char>, from: usize, platform: Platform, verbatim: bool) -> (r: Vec<String>)
    requires
        from <= v.len(),
    ensures
        texts(r@) == split(v@.subrange(from as int, v.len() as int), platform, verbatim),
{
    let mut done: Vec<String> = Vec::new();
    let mut current = String::new();
    let mut i: usize = from;
    assert(v@.subrange(from as int, from as int) =~= Seq::<char>::empty());
    assert(texts(done@).push(current@) =~= seq![Seq::<char>::empty()]);
    while i < v.len()
        invariant
            from <= i <= v.len(),
            texts(done@).push(current@) == split(v@.subrange(from as int, i as int), platform, verbatim),
        decreases v.len() - i,
    {
        let c = v[i];
        let ghost before = v@.subrange(from as int, i as int);
        let ghost after = v@.subrange(from as int, i + 1);
        let ghost init = split(before, platform, verbatim);
        proof {
            assert(after.drop_last() =~= before);
            assert(after.last() == c);
            assert(init.drop_last() =~= texts(done@));
            assert(init.last() == current@);
        }
        if separator_in(platform, verbatim, c) {
            let ghost old_done = done@;
            done.push(current);
            current = String::new();
            proof {
                assert(texts(done@) =~= texts(old_done).push(init.last()));
                assert(texts(done@) =~= init);
            }
        } else {
            current.push(c);
        }
        i = i + 1;
    }
    let ghost old_done = done@;
    let ghost last = current@;
    done.push(current);
    assert(texts(done@) =~= texts(old_done).push(last));
    done
}

fn is_single_dot(s: &String) -> (r: bool)
    ensures
        r == (s@ == seq!['.']),
{
    let v = chars_of(s.as_str());
    let r = v.len() == 1 && v[0] == '.';
    proof {
        if r {
            assert(s@ =~= seq!['.']);
        } else if s@ == seq!['.'] {
            assert(v@[0] == '.');
        }
    }
    r
}

fn is_double_dot(s: &String) -> (r: bool)
    ensures
        r == (s@ == seq!['.', '.']),
{
    let v = chars_of(s.as_str());
    let r = v.len() == 2 && v[0] == '.' && v[1] == '.';
    proof {
        if r {
            assert(s@ =~= seq!['.', '.']);
        } else if s@ == seq!['.', '.'] {
            assert(v@[0] == '.' && v@[1] == '.');
        }
    }
    r
}

/// The names of a path, below its prefix and root.
pub fn names_of(platform: Platform, path: &str) -> (r: Vec<String>)
    ensures
        texts(r@) == names(platform, path@),
{
    let v = chars_of(path);
    let p = read_prefix(platform, &v);
    let physical: bool = p.len < v.len() && separator(platform, v[p.len]);
    let rooted: bool = physical || p.kind.implicit_root();
    let verbatim: bool = p.kind.verbatim();
    let start: usize = if physical {
        p.len + 1
    } else {
        p.len
    };
    let pieces = split_pieces(&v, start, platform, verbatim);
    let ghost all = texts(pieces@);
    let mut r: Vec<String> = Vec::new();
    let mut i: usize = 0;
    assert(all.subrange(0, 0) =~= Seq::<Seq<char>>::empty());
    assert(texts(r@) =~= Seq::<Seq<char>>::empty());
    while i < pieces.len()
        invariant
            i <= pieces.len(),
            all == texts(pieces@),
            texts(r@) == names_among(all.subrange(0, i as int), verbatim, rooted),
        decreases pieces.len() - i,
    {
        let piece = &pieces[i];
        let ghost upto = all.subrange(0, i + 1);
        proof {
            assert(upto.drop_last() =~= all.subrange(0, i as int));
            assert(upto.last() == piece@);
        }
        let empty: bool = piece.as_str().is_empty();
        if !empty && (!is_single_dot(piece) || verbatim || (i == 0 && !rooted)) {
            let ghost before = r@;
            r.push(piece.clone());
            assert(texts(r@) =~= texts(before).push(piece@));
        }
        i = i + 1;
    }
    assert(all.subrange(0, i as int) =~= all);
    r
}

fn push_all(s: &mut String, v: &Vec<char>)
    ensures
        final(s)@ == old(s)@ + v@,
{
    let text = text_of(v, 0, v.len());
    s.append(text.as_str());
    assert(v@.subrange(0, v.len() as int) =~= v@);
}

fn prefix_label(p: &PathPrefix) -> (r: String)
    ensures
        r@ == prefix_text(p@),
{
    proof {
        reveal_strlit("\\\\?\\");
        reveal_strlit("\\\\?\\UNC\\");
        reveal_strlit("\\\\.\\");
        reveal_strlit("//");
    }
    let mut r = String::new();
    match p.kind {
        PrefixKind::Absent => {},
        PrefixKind::Disk => {
            push_all(&mut r, &p.first);
            r.push(':');
            assert(r@ =~= p.first@.push(':'));
        },
        PrefixKind::VerbatimDisk => {
            r.append("\\\\?\\");
            push_all(&mut r, &p.first);
            r.push(':');
            assert(r@ =~= prefix_text(p@));
        },
        PrefixKind::Verbatim => {
            r.append("\\\\?\\");
            push_all(&mut r, &p.first);
            assert(r@ =~= prefix_text(p@));
        },
        PrefixKind::VerbatimUnc => {
            r.append("\\\\?\\UNC\\");
            push_all(&mut r, &p.first);
            r.push('\\');
            push_all(&mut r, &p.second);
            assert(r@ =~= prefix_text(p@));
        },
        PrefixKind::DeviceNs => {
            r.append("\\\\.\\");
            push_all(&mut r, &p.first);
            assert(r@ =~= prefix_text(p@));
        },
        PrefixKind::Unc => {
            r.append("//");
            push_all(&mut r, &p.first);
            r.push('/');
            push_all(&mut r, &p.second);
            assert(r@ =~= prefix_text(p@));
        },
    }
    r
}

/// The components of a path: its prefix, its root and its names.
pub fn components_of(platform: Platform, path: &str) -> (r: Vec<String>)
    ensures
        texts(r@) == components(platform, path@),
{
    let v = chars_of(path);
    let p = read_prefix(platform, &v);
    let physical: bool = p.len < v.len() && separator(platform, v[p.len]);
    let mut r: Vec<String> = Vec::new();
    assert(texts(r@) =~= Seq::<Seq<char>>::empty());
    match p.kind {
        PrefixKind::Absent => {},
        _ => {
            r.push(prefix_label(&p));
            assert(texts(r@) =~= seq![prefix_text(p@)]);
        },
    }
    if physical || (p.kind.implicit_root() && !p.kind.verbatim()) {
        let mut mark = String::new();
        match platform {
            Platform::Unix => mark.push('/'),
            Platform::Windows => mark.push('\\'),
        }
        let ghost before = r@;
        let ghost m = mark@;
        r.push(mark);
        assert(m =~= root_mark(platform));
        assert(texts(r@) =~= texts(before) + seq![root_mark(platform)]);
    }
    let ghost head = r@;
    let mut rest = names_of(platform, path);
    let ghost tail = rest@;
    r.append(&mut rest);
    assert(texts(r@) =~= texts(head) + texts(tail));
    proof {
        reveal(components);
        assert(texts(r@) =~= components(platform, path@));
    }
    r
}

/// Whether the components of `base` are the first components of `path`.
pub open spec fn starts_with(platform: Platform, path: Seq<char>, base: Seq<char>) -> bool {
    components(platform, base).is_prefix_of(components(platform, path))
}

/// Whether the components of `base` are the first components of `path`.
pub fn path_starts_with(platform: Platform, path: &str, base: &str) -> (r: bool)
    ensures
        r == starts_with(platform, path@, base@),
{
    let p = components_of(platform, path);
    let b = components_of(platform, base);
    let ghost ps = components(platform, path@);
    let ghost bs = components(platform, base@);
    proof {
        assert(ps.len() == p.len());
        assert(bs.len() == b.len());
    }
    if b.len() > p.len() {
        return false;
    }
    let mut i: usize = 0;
    while i < b.len()
        invariant
            i <= b.len() <= p.len(),
            ps == texts(p@),
            bs == texts(b@),
            ps == components(platform, path@),
            bs == components(platform, base@),
            forall|k: int| 0 <= k < i ==> bs[k] == ps[k],
        decreases b.len() - i,
    {
        assert(bs[i as int] == b@[i as int]@);
        assert(ps[i as int] == p@[i as int]@);
        if b[i] != p[i] {
            assert(ps.subrange(0, bs.len() as int)[i as int] != bs[i as int]);
            return false;
        }
        i = i + 1;
    }
    assert(bs =~= ps.subrange(0, bs.len() as int));
    true
}

/// Whether a path lies under one of the roots. With no roots at all, every path does.
pub open spec fn is_under_any(platform: Platform, path: Seq<char>, roots: Seq<Seq<char>>) -> bool {
    roots.len() == 0 || exists|k: int| 0 <= k < roots.len() && starts_with(platform, path, #[trigger] roots[k])
}

/// Whether a path lies under one of the roots. With no roots at all, every path does.
pub fn under_any_root(platform: Platform, path: &str, roots: &Vec<String>) -> (r: bool)
    ensures
        r == is_under_any(platform, path@, texts(roots@)),
{
    let ghost all = texts(roots@);
    if roots.len() == 0 {
        assert(all.len() == 0);
        return true;
    }
    let mut i: usize = 0;
    while i < roots.len()
        invariant
            i <= roots.len(),
            roots.len() > 0,
            all == texts(roots@),
            forall|k: int| 0 <= k < i ==> !starts_with(platform, path@, #[trigger] all[k]),
        decreases roots.len() - i,
    {
        assert(all[i as int] == roots@[i as int]@);
        if path_starts_with(platform, path, roots[i].as_str()) {
            return true;
        }
        i = i + 1;
    }
    false
}

/// Whether the path is the root of its volume: a root, with or without a prefix, and nothing below.
pub open spec fn names_volume_root(platform: Platform, s: Seq<char>) -> bool {
    has_root_component(platform, s) && names(platform, s).len() == 0
}

/// Whether the path is the root of its volume, and not a directory below it.
///
/// `C:\`, `\\?\C:\`, `\\server\share\` and `/` are; `C:\Windows`, `/home` and the
/// drive-relative `C:` are not.
pub fn is_volume_root(platform: Platform, path: &str) -> (r: bool)
    ensures
        r == names_volume_root(platform, path@),
{
    let v = chars_of(path);
    let p = read_prefix(platform, &v);
    let physical: bool = p.len < v.len() && separator(platform, v[p.len]);
    let found = names_of(platform, path);
    assert(texts(found@).len() == found.len());
    (physical || (p.kind.implicit_root() && !p.kind.verbatim())) && found.len() == 0
}

/// Whether every root is the root of its volume. An empty list is.
pub fn all_roots_are_volume_roots(platform: Platform, roots: &Vec<String>) -> (r: bool)
    ensures
        r == (forall|k: int| 0 <= k < roots.len() ==> names_volume_root(platform, #[trigger] roots@[k]@)),
{
    let mut i: usize = 0;
    while i < roots.len()
        invariant
            i <= roots.len(),
            forall|k: int| 0 <= k < i ==> names_volume_root(platform, #[trigger] roots@[k]@),
        decreases roots.len() - i,
    {
        if !is_volume_root(platform, roots[i].as_str()) {
            assert(!names_volume_root(platform, roots@[i as int]@));
            return false;
        }
        i = i + 1;
    }
    true
}

/// The last name of a path, unless the path has none or ends in `.` or `..`.
pub open spec fn final_name(platform: Platform, s: Seq<char>) -> Option<Seq<char>> {
    let all = names(platform, s);
    if all.len() == 0 || all.last() == seq!['.'] || all.last() == seq!['.', '.'] {
        None
    } else {
        Some(all.last())
    }
}

/// The last name of a path, unless the path has none or ends in `.` or `..`.
pub fn file_name_of(platform: Platform, path: &str) -> (r: Option<String>)
    ensures
        match r {
            Some(n) => final_name(platform, path@) == Some(n@),
            None => final_name(platform, path@) is None,
        },
{
    let mut all = names_of(platform, path);
    let ghost views = texts(all@);
    if all.len() == 0 {
        return None;
    }
    let last = all[all.len() - 1].clone();
    assert(views.last() == last@);
    if is_single_dot(&last) || is_double_dot(&last) {
        None
    } else {
        Some(last)
    }
}

/// Whether a separator has to be put between a path and a name that is appended to it.
pub open spec fn needs_separator(platform: Platform, base: Seq<char>) -> bool {
    let p = prefix_of(platform, base);
    base.len() > 0 && !is_separator(platform, base.last()) && !(p.kind is Disk && p.len == base.len())
}

/// The separator that is written between names.
pub open spec fn main_separator(platform: Platform) -> char {
    if platform is Windows {
        '\\'
    } else {
        '/'
    }
}

/// Where the names of a part lead, from the names of a path on: `.` stays, and `..` goes back over
/// the last name, unless there is none or it is `.` or `..` itself.
pub open spec fn followed(from: Seq<Seq<char>>, part: Seq<Seq<char>>) -> Seq<Seq<char>>
    decreases part.len(),
{
    if part.len() == 0 {
        from
    } else {
        let at = followed(from, part.drop_last());
        if part.last() == seq!['.'] {
            at
        } else if part.last() == seq!['.', '.'] {
            if at.len() == 0 || at.last() == seq!['.'] || at.last() == seq!['.', '.'] {
                at
            } else {
                at.drop_last()
            }
        } else {
            at.push(part.last())
        }
    }
}

/// The names one after the other, each behind a backslash.
pub open spec fn behind_backslashes(all: Seq<Seq<char>>) -> Seq<char>
    decreases all.len(),
{
    if all.len() == 0 {
        Seq::empty()
    } else {
        behind_backslashes(all.drop_last()).push('\\') + all.last()
    }
}

/// The names of a path with a verbatim prefix, after a part was appended to it. A part with a root
/// starts anew below the prefix.
pub open spec fn verbatim_names(platform: Platform, base: Seq<char>, part: Seq<char>) -> Seq<Seq<char>> {
    followed(
        if has_physical_root(platform, part) {
            Seq::empty()
        } else {
            names(platform, base)
        },
        names(platform, part),
    )
}

/// A path with a verbatim prefix, with a part appended: it is written anew from its names, since
/// nothing in such a path is resolved or tidied later.
pub open spec fn verbatim_pushed(platform: Platform, base: Seq<char>, part: Seq<char>) -> Seq<char> {
    let prefix = base.subrange(0, prefix_of(platform, base).len);
    let all = verbatim_names(platform, base, part);
    if all.len() > 0 {
        prefix + behind_backslashes(all)
    } else if has_physical_root(platform, base) || has_physical_root(platform, part) {
        prefix.push('\\')
    } else {
        prefix
    }
}

/// A path with another one appended: a part with a prefix of its own replaces the path, a verbatim
/// path is written anew, a part with only a root keeps the path's prefix, and any other part goes
/// behind a separator.
pub open spec fn pushed(platform: Platform, base: Seq<char>, part: Seq<char>) -> Seq<char> {
    if !(prefix_of(platform, part).kind is Absent) {
        part
    } else if prefix_of(platform, base).kind.is_verbatim() && part.len() > 0 {
        verbatim_pushed(platform, base, part)
    } else if has_physical_root(platform, part) {
        base.subrange(0, prefix_of(platform, base).len) + part
    } else if needs_separator(platform, base) {
        base.push(main_separator(platform)) + part
    } else {
        base + part
    }
}

/// Where the names of a part lead, from the names of a path on.
fn follow(from: Vec<String>, part: &Vec<String>) -> (r: Vec<String>)
    ensures
        texts(r@) == followed(texts(from@), texts(part@)),
{
    let ghost start = texts(from@);
    let ghost all = texts(part@);
    let mut r = from;
    let mut i: usize = 0;
    assert(all.take(0) =~= Seq::<Seq<char>>::empty());
    while i < part.len()
        invariant
            i <= part.len(),
            all == texts(part@),
            texts(r@) == followed(start, all.take(i as int)),
        decreases part.len() - i,
    {
        let name = &part[i];
        let ghost before = r@;
        proof {
            assert(all.take(i + 1).drop_last() =~= all.take(i as int));
            assert(all.take(i + 1).last() == name@);
        }
        if is_double_dot(name) {
            assert(name@ != seq!['.']) by {
                assert(name@.len() == 2);
            }
            if r.len() > 0 {
                let n: usize = r.len() - 1;
                assert(texts(before).last() == before[n as int]@);
                if !is_single_dot(&r[n]) && !is_double_dot(&r[n]) {
                    r.truncate(n);
                    assert(texts(r@) =~= texts(before).drop_last());
                }
            }
        } else if !is_single_dot(name) {
            r.push(name.clone());
            assert(texts(r@) =~= texts(before).push(name@));
        }
        i = i + 1;
    }
    assert(all.take(i as int) =~= all);
    r
}

fn push_on_verbatim(platform: Platform, base: &str, part: &str) -> (r: String)
    ensures
        r@ == verbatim_pushed(platform, base@, part@),
{
    let b = chars_of(base);
    let q = chars_of(part);
    let bp = read_prefix(platform, &b);
    let qp = read_prefix(platform, &q);
    let part_rooted: bool = qp.len < q.len() && separator(platform, q[qp.len]);
    let base_rooted: bool = bp.len < b.len() && separator(platform, b[bp.len]);
    let from: Vec<String> = if part_rooted {
        Vec::new()
    } else {
        names_of(platform, base)
    };
    assert(part_rooted ==> texts(from@) =~= Seq::<Seq<char>>::empty());
    let all = follow(from, &names_of(platform, part));
    let ghost views = texts(all@);
    let ghost prefix = base@.subrange(0, bp.len as int);
    let mut r = text_of(&b, 0, bp.len);
    let mut i: usize = 0;
    assert(views.take(0) =~= Seq::<Seq<char>>::empty());
    assert(r@ =~= prefix + Seq::<char>::empty());
    while i < all.len()
        invariant
            i <= all.len(),
            views == texts(all@),
            r@ == prefix + behind_backslashes(views.take(i as int)),
        decreases all.len() - i,
    {
        let ghost before = behind_backslashes(views.take(i as int));
        proof {
            assert(views.take(i + 1).drop_last() =~= views.take(i as int));
            assert(views.take(i + 1).last() == all@[i as int]@);
        }
        r.push('\\');
        r.append(all[i].as_str());
        i = i + 1;
        assert(r@ =~= prefix + (before.push('\\') + all@[i - 1]@));
    }
    assert(views.take(i as int) =~= views);
    if all.len() == 0 {
        assert(r@ =~= prefix);
        if base_rooted || part_rooted {
            r.push('\\');
        }
    }
    r
}

/// A path with another one appended.
pub fn path_push(platform: Platform, base: &str, part: &str) -> (r: String)
    ensures
        r@ == pushed(platform, base@, part@),
{
    let b = chars_of(base);
    let q = chars_of(part);
    let bp = read_prefix(platform, &b);
    let qp = read_prefix(platform, &q);
    match qp.kind {
        PrefixKind::Absent => {},
        _ => {
            return part.to_owned();
        },
    }
    if bp.kind.verbatim() && q.len() > 0 {
        return push_on_verbatim(platform, base, part);
    }
    if qp.len < q.len() && separator(platform, q[qp.len]) {
        let mut r = text_of(&b, 0, bp.len);
        r.append(part);
        return r;
    }
    let mut r = base.to_owned();
    let bare_drive: bool = match bp.kind {
        PrefixKind::Disk => bp.len == b.len(),
        _ => false,
    };
    if b.len() > 0 && !separator(platform, b[b.len() - 1]) && !bare_drive {
        match platform {
            Platform::Unix => r.push('/'),
            Platform::Windows => r.push('\\'),
        }
    }
    r.append(part);
    r
}

/// A path with every part of a list appended in turn.
pub open spec fn pushed_all(platform: Platform, base: Seq<char>, parts: Seq<Seq<char>>) -> Seq<char>
    decreases parts.len(),
{
    if parts.len() == 0 {
        base
    } else {
        pushed(platform, pushed_all(platform, base, parts.drop_last()), parts.last())
    }
}

/// A path with every part of a list appended in turn.
pub fn path_push_all(platform: Platform, base: &str, parts: &Vec<String>) -> (r: String)
    ensures
        r@ == pushed_all(platform, base@, texts(parts@)),
{
    let ghost all = texts(parts@);
    let mut r = base.to_owned();
    let mut i: usize = 0;
    assert(all.subrange(0, 0) =~= Seq::<Seq<char>>::empty());
    while i < parts.len()
        invariant
            i <= parts.len(),
            all == texts(parts@),
            r@ == pushed_all(platform, base@, all.subrange(0, i as int)),
        decreases parts.len() - i,
    {
        let ghost upto = all.subrange(0, i + 1);
        proof {
            assert(upto.drop_last() =~= all.subrange(0, i as int));
            assert(upto.last() == parts@[i as int]@);
        }
        r = path_push(platform, r.as_str(), parts[i].as_str());
        i = i + 1;
    }
    assert(all.subrange(0, i as int) =~= all);
    r
}

/// The root of a drive, such as `C:\`.
pub open spec fn drive_root(letter: Seq<char>) -> Seq<char> {
    letter + seq![':', '\\']
}

/// The text without its first `n` characters.
pub open spec fn without_first(s: Seq<char>, n: int) -> Seq<char> {
    s.subrange(n, s.len() as int)
}

/// The path without its verbatim `\\?\` marker: a verbatim drive becomes a plain drive with its
/// names below it, the other verbatim forms lose the marker, and every other path stays.
pub open spec fn unverbatim(platform: Platform, s: Seq<char>) -> Seq<char> {
    let p = prefix_of(platform, s);
    if p.kind is VerbatimDisk {
        pushed_all(platform, drive_root(p.first), names(platform, s))
    } else if p.kind is VerbatimUnc || p.kind is Verbatim {
        without_first(s, 4)
    } else {
        s
    }
}

/// Drops the verbatim `\\?\` marker, so that the path compares with `Drive:\...` paths.
pub fn strip_verbatim_prefix(platform: Platform, path: &str) -> (r: String)
    ensures
        r@ == unverbatim(platform, path@),
{
    let v = chars_of(path);
    let p = read_prefix(platform, &v);
    match p.kind {
        PrefixKind::VerbatimDisk => {
            let mut root = String::new();
            push_all(&mut root, &p.first);
            root.push(':');
            root.push('\\');
            assert(root@ =~= drive_root(p.first@));
            let parts = names_of(platform, path);
            path_push_all(platform, root.as_str(), &parts)
        },
        PrefixKind::VerbatimUnc | PrefixKind::Verbatim => text_of(&v, 4, v.len()),
        _ => path.to_owned(),
    }
}

/// A drive path in its verbatim form. Paths that are verbatim already, relative paths and paths
/// without a drive stay.
pub open spec fn verbatim(s: Seq<char>) -> Seq<char> {
    let w = Platform::Windows;
    if prefix_of(w, s).kind is Disk && has_physical_root(w, s) {
        seq!['\\', '\\', '?', '\\'] + s
    } else {
        s
    }
}

/// Converts a regular Windows path (`C:\foo\bar`) to its verbatim form (`\\?\C:\foo\bar`).
/// Already-verbatim paths and paths without a drive pass through unchanged.
pub fn to_verbatim(path: &str) -> (r: String)
    ensures
        r@ == verbatim(path@),
{
    let w = Platform::Windows;
    let v = chars_of(path);
    let p = read_prefix(w, &v);
    let on_drive: bool = match p.kind {
        PrefixKind::Disk => true,
        _ => false,
    };
    if on_drive && p.len < v.len() && separator(w, v[p.len]) {
        proof {
            reveal_strlit("\\\\?\\");
        }
        let mut r = "\\\\?\\".to_owned();
        assert(r@ =~= seq!['\\', '\\', '?', '\\']);
        r.append(path);
        r
    } else {
        path.to_owned()
    }
}

/// How a path is shown to a person: without the verbatim marker, and a verbatim share as a
/// plain share.
pub open spec fn displayed(s: Seq<char>) -> Seq<char> {
    let unc = seq!['\\', '\\', '?', '\\', 'U', 'N', 'C', '\\'];
    let plain = seq!['\\', '\\', '?', '\\'];
    if unc.is_prefix_of(s) {
        seq!['\\', '\\'] + without_first(s, 8)
    } else if plain.is_prefix_of(s) {
        without_first(s, 4)
    } else {
        s
    }
}

/// How a path is shown to a person.
pub fn for_user_display(path: &str) -> (r: String)
    ensures
        r@ == displayed(path@),
{
    let v = chars_of(path);
    proof {
        reveal_strlit("\\\\?\\UNC\\");
        reveal_strlit("\\\\?\\");
        reveal_strlit("\\\\");
        assert("\\\\?\\UNC\\"@ =~= seq!['\\', '\\', '?', '\\', 'U', 'N', 'C', '\\']);
        assert("\\\\?\\"@ =~= seq!['\\', '\\', '?', '\\']);
        assert("\\\\"@ =~= seq!['\\', '\\']);
    }
    if found_at(&v, 0, &chars_of("\\\\?\\UNC\\")) {
        let mut r = "\\\\".to_owned();
        r.append(text_of(&v, 8, v.len()).as_str());
        r
    } else if found_at(&v, 0, &chars_of("\\\\?\\")) {
        text_of(&v, 4, v.len())
    } else {
        path.to_owned()
    }
}

/// The text without the backslashes at its end.
pub open spec fn without_trailing_backslashes(s: Seq<char>) -> Seq<char>
    decreases s.len(),
{
    if s.len() > 0 && s.last() == '\\' {
        without_trailing_backslashes(s.drop_last())
    } else {
        s
    }
}

/// The first root on a drive, if there is one.
pub open spec fn first_drive(roots: Seq<Seq<char>>) -> Option<Seq<char>>
    decreases roots.len(),
{
    if roots.len() == 0 {
        None
    } else {
        let p = prefix_of(Platform::Windows, roots[0]);
        if p.kind is Disk {
            Some(p.first)
        } else {
            first_drive(roots.drop_first())
        }
    }
}

/// Where the paths of a volume start: at the drive of its first root that has one, else at the
/// volume's own name.
pub open spec fn volume_root(volume: Seq<char>, roots: Seq<Seq<char>>) -> Seq<char> {
    match first_drive(roots) {
        Some(letter) => drive_root(letter),
        None => without_trailing_backslashes(volume),
    }
}

fn trim_trailing_backslashes(s: &str) -> (r: String)
    ensures
        r@ == without_trailing_backslashes(s@),
{
    let v = chars_of(s);
    let mut n: usize = v.len();
    assert(v@.subrange(0, v.len() as int) =~= v@);
    while n > 0 && v[n - 1] == '\\'
        invariant
            n <= v.len(),
            v@ == s@,
            without_trailing_backslashes(s@) == without_trailing_backslashes(v@.subrange(0, n as int)),
        decreases n,
    {
        assert(v@.subrange(0, n as int).drop_last() =~= v@.subrange(0, n - 1));
        n = n - 1;
    }
    text_of(&v, 0, n)
}

/// The drive root (such as `C:\`) that paths of a volume are rebuilt under, or the volume's name
/// where no root lies on a drive. The closing backslash makes the root absolute: `C:` alone is
/// relative to the drive.
pub fn volume_root_for(volume: &str, roots: &Vec<String>) -> (r: String)
    ensures
        r@ == volume_root(volume@, texts(roots@)),
{
    let ghost all = texts(roots@);
    let mut i: usize = 0;
    assert(all.subrange(0, all.len() as int) =~= all);
    while i < roots.len()
        invariant
            i <= roots.len(),
            all == texts(roots@),
            first_drive(all) == first_drive(all.subrange(i as int, all.len() as int)),
        decreases roots.len() - i,
    {
        let ghost rest = all.subrange(i as int, all.len() as int);
        let v = chars_of(roots[i].as_str());
        let p = read_prefix(Platform::Windows, &v);
        proof {
            assert(rest[0] == roots@[i as int]@);
            assert(rest.drop_first() =~= all.subrange(i + 1, all.len() as int));
        }
        match p.kind {
            PrefixKind::Disk => {
                let mut r = String::new();
                push_all(&mut r, &p.first);
                r.push(':');
                r.push('\\');
                assert(r@ =~= drive_root(p.first@));
                return r;
            },
            _ => {},
        }
        i = i + 1;
    }
    trim_trailing_backslashes(volume)
}

/// A path lies under itself.
pub proof fn starts_with_is_reflexive(platform: Platform, p: Seq<char>)
    ensures
        starts_with(platform, p, p),
{
    let c = components(platform, p);
    assert(c =~= c.subrange(0, c.len() as int));
}

/// What lies under a path that lies under a third one, lies under the third one.
pub proof fn starts_with_is_transitive(platform: Platform, a: Seq<char>, b: Seq<char>, c: Seq<char>)
    requires
        starts_with(platform, a, b),
        starts_with(platform, b, c),
    ensures
        starts_with(platform, a, c),
{
    let x = components(platform, a);
    let y = components(platform, b);
    let z = components(platform, c);
    assert(z =~= x.subrange(0, z.len() as int)) by {
        assert forall|k: int| 0 <= k < z.len() implies z[k] == x[k] by {
            assert(y.subrange(0, z.len() as int)[k] == y[k]);
            assert(x.subrange(0, y.len() as int)[k] == x[k]);
        }
    }
}

/// Converting to the verbatim form twice changes nothing more.
pub proof fn verbatim_is_idempotent(s: Seq<char>)
    ensures
        verbatim(verbatim(s)) == verbatim(s),
{
    let w = Platform::Windows;
    if prefix_of(w, s).kind is Disk && has_physical_root(w, s) {
        let t = verbatim(s);
        assert(t[0] == '\\' && t[1] == '\\' && t[2] == '?' && t[3] == '\\');
    }
}

/// What is shown of a verbatim drive path is the path it was made from.
pub proof fn display_undoes_verbatim(s: Seq<char>)
    requires
        prefix_of(Platform::Windows, s).kind is Disk,
        has_physical_root(Platform::Windows, s),
    ensures
        displayed(verbatim(s)) == s,
{
    let t = verbatim(s);
    let plain = seq!['\\', '\\', '?', '\\'];
    let unc = seq!['\\', '\\', '?', '\\', 'U', 'N', 'C', '\\'];
    assert(t.subrange(0, 4) =~= plain);
    assert(without_first(t, 4) =~= s);
    if unc.is_prefix_of(t) {
        assert(t.subrange(0, 8)[5] == 'N');
        assert(t[5] == s[1]);
    }
}

proof fn lemma_split_parts(a: Seq<char>, name: Seq<char>, c: char, platform: Platform, verbatim: bool)
    requires
        separates(platform, verbatim, c),
        forall|i: int| 0 <= i < name.len() ==> !separates(platform, verbatim, #[trigger] name[i]),
    ensures
        split(a.push(c) + name, platform, verbatim) == split(a, platform, verbatim).push(name),
    decreases name.len(),
{
    let whole = a.push(c) + name;
    if name.len() == 0 {
        assert(whole =~= a.push(c));
        assert(whole.drop_last() =~= a);
        assert(name =~= Seq::<char>::empty());
    } else {
        let init = name.drop_last();
        assert(whole.drop_last() =~= a.push(c) + init);
        assert(whole.last() == name.last());
        assert(name.last() == name[name.len() - 1]);
        assert forall|i: int| 0 <= i < init.len() implies !separates(platform, verbatim, #[trigger] init[i]) by {
            assert(init[i] == name[i]);
        }
        lemma_split_parts(a, init, c, platform, verbatim);
        let before = split(a, platform, verbatim).push(init);
        assert(before.drop_last() =~= split(a, platform, verbatim));
        assert(before.last().push(name.last()) =~= name);
    }
}

proof fn lemma_split_is_not_empty(s: Seq<char>, platform: Platform, verbatim: bool)
    ensures
        split(s, platform, verbatim).len() > 0,
    decreases s.len(),
{
    if s.len() > 0 {
        lemma_split_is_not_empty(s.drop_last(), platform, verbatim);
    }
}

/// A name that is put behind a directory and a `/` is the last name of the path, behind the names
/// of the directory.
pub proof fn names_follow_their_directory(dir: Seq<char>, name: Seq<char>)
    requires
        dir.len() > 0,
        name.len() > 0,
        name != seq!['.'],
        forall|i: int| 0 <= i < name.len() ==> #[trigger] name[i] != '/',
    ensures
        names(Platform::Unix, dir.push('/') + name) == names(Platform::Unix, dir).push(name),
        components(Platform::Unix, dir.push('/') + name) == components(Platform::Unix, dir).push(name),
{
    reveal(components);
    let u = Platform::Unix;
    let path = dir.push('/') + name;
    assert(path[0] == dir[0]);
    let start: int = if dir[0] == '/' { 1 } else { 0 };
    let below = dir.subrange(start, dir.len() as int);
    assert(path.subrange(start, path.len() as int) =~= below.push('/') + name);
    lemma_split_parts(below, name, '/', u, false);
    lemma_split_is_not_empty(below, u, false);
    let pieces = split(below, u, false);
    assert(pieces.push(name).drop_last() =~= pieces);
    assert(components(u, path) =~= components(u, dir).push(name));
}

/// A path that is joined from a directory and a name lies under the directory, ends in the name,
/// and is no volume root. Only a `/` comes between the two, and none where the directory ends in
/// one already.
pub proof fn joined_paths_lie_under_their_directory(dir: Seq<char>, name: Seq<char>)
    requires
        dir.len() > 0,
        name.len() > 0,
        name != seq!['.'],
        name != seq!['.', '.'],
        forall|i: int| 0 <= i < name.len() ==> #[trigger] name[i] != '/',
    ensures
        pushed(Platform::Unix, dir, name) == if dir.last() == '/' {
            dir + name
        } else {
            dir.push('/') + name
        },
        dir.last() != '/' ==> starts_with(Platform::Unix, pushed(Platform::Unix, dir, name), dir),
        dir.last() != '/' ==> final_name(Platform::Unix, pushed(Platform::Unix, dir, name)) == Some(name),
        dir.last() != '/' ==> !names_volume_root(Platform::Unix, pushed(Platform::Unix, dir, name)),
        dir.last() != '/' ==> !starts_with(Platform::Unix, dir, pushed(Platform::Unix, dir, name)),
{
    let u = Platform::Unix;
    assert(name[0] != '/');
    if dir.last() != '/' {
        names_follow_their_directory(dir, name);
        let c = components(u, dir);
        assert(c.push(name).subrange(0, c.len() as int) =~= c);
    }
}

/// A part that starts at a root replaces the path it is joined to, away from Windows.
pub proof fn rooted_parts_replace_the_path(base: Seq<char>, part: Seq<char>)
    requires
        part.len() > 0,
        part[0] == '/',
    ensures
        pushed(Platform::Unix, base, part) == part,
{
    assert(base.subrange(0, 0) + part =~= part);
}

/// On a drive, a name is put behind its directory and a backslash, and none where the directory
/// ends in a separator already.
pub proof fn names_on_drives_follow_their_directory(dir: Seq<char>, name: Seq<char>)
    requires
        dir.len() >= 3,
        'A' <= dir[0] <= 'Z' || 'a' <= dir[0] <= 'z',
        dir[1] == ':',
        dir[2] == '\\',
        name.len() > 0,
        name[0] != '\\',
        name[0] != '/',
        name.len() < 2 || name[1] != ':',
    ensures
        pushed(Platform::Windows, dir, name) == if dir.last() == '\\' || dir.last() == '/' {
            dir + name
        } else {
            dir.push('\\') + name
        },
{
}

/// The empty path is no volume root, and neither is a path without a root; a path of nothing but
/// `/` is one, away from Windows. On Windows a drive and a backslash is one; the drive alone is
/// not.
pub proof fn volume_roots_are_roots(s: Seq<char>)
    ensures
        names_volume_root(Platform::Unix, s) ==> s.len() > 0 && s[0] == '/',
        s == seq!['/'] ==> names_volume_root(Platform::Unix, s),
        s.len() == 3 && is_drive_letter(s[0]) && s[1] == ':' && s[2] == '\\' ==> names_volume_root(
            Platform::Windows,
            s,
        ),
        s.len() == 2 && is_drive_letter(s[0]) && s[1] == ':' ==> !names_volume_root(
            Platform::Windows,
            s,
        ),
{
    if s == seq!['/'] {
        assert(s.subrange(1, 1) =~= Seq::<char>::empty());
        let pieces = seq![Seq::<char>::empty()];
        assert(split(Seq::<char>::empty(), Platform::Unix, false) =~= pieces);
        assert(pieces.drop_last() =~= Seq::<Seq<char>>::empty());
        assert(names_among(pieces.drop_last(), false, true) =~= Seq::<Seq<char>>::empty());
        assert(names_among(pieces, false, true) =~= Seq::<Seq<char>>::empty());
    }
    if s.len() == 3 && is_drive_letter(s[0]) && s[1] == ':' && s[2] == '\\' {
        assert(s.subrange(3, 3) =~= Seq::<char>::empty());
        let pieces = seq![Seq::<char>::empty()];
        assert(split(Seq::<char>::empty(), Platform::Windows, false) =~= pieces);
        assert(pieces.drop_last() =~= Seq::<Seq<char>>::empty());
        assert(names_among(pieces.drop_last(), false, true) =~= Seq::<Seq<char>>::empty());
        assert(names_among(pieces, false, true) =~= Seq::<Seq<char>>::empty());
    }
}

/// The paths of a volume start at the drive of the first root that lies on one, its letter in
/// capitals, whatever roots follow.
pub proof fn volumes_start_at_their_first_drive(volume: Seq<char>, roots: Seq<Seq<char>>, k: int)
    requires
        0 <= k < roots.len(),
        roots[k].len() >= 2,
        'A' <= roots[k][0] <= 'Z',
        roots[k][1] == ':',
        forall|j: int|
            0 <= j < k ==> !(prefix_of(Platform::Windows, #[trigger] roots[j]).kind is Disk),
    ensures
        volume_root(volume, roots) == seq![roots[k][0], ':', '\\'],
    decreases k,
{
    if k == 0 {
        assert(drive_root(seq![roots[0][0]]) =~= seq![roots[0][0], ':', '\\']);
    } else {
        let rest = roots.drop_first();
        assert(!(prefix_of(Platform::Windows, roots[0]).kind is Disk));
        assert(rest[k - 1] == roots[k]);
        assert forall|j: int| 0 <= j < k - 1 implies !(prefix_of(
            Platform::Windows,
            #[trigger] rest[j],
        ).kind is Disk) by {
            assert(rest[j] == roots[j + 1]);
        }
        volumes_start_at_their_first_drive(volume, rest, k - 1);
    }
}

/// What is shown of a verbatim share is the plain share, and a path that does not begin with two
/// backslashes is shown as it is.
pub proof fn shares_are_shown_plain(rest: Seq<char>)
    ensures
        displayed(seq!['\\', '\\', '?', '\\', 'U', 'N', 'C', '\\'] + rest) == seq!['\\', '\\'] + rest,
        (rest.len() < 2 || rest[0] != '\\' || rest[1] != '\\') ==> displayed(rest) == rest,
{
    let unc = seq!['\\', '\\', '?', '\\', 'U', 'N', 'C', '\\'];
    let s = unc + rest;
    assert(s.subrange(0, 8) =~= unc);
    assert(without_first(s, 8) =~= rest);
    if seq!['\\', '\\', '?', '\\'].is_prefix_of(rest) {
        assert(rest.subrange(0, 4)[0] == '\\');
        assert(rest.subrange(0, 4)[1] == '\\');
    }
    if unc.is_prefix_of(rest) {
        assert(rest.subrange(0, 8)[0] == '\\');
        assert(rest.subrange(0, 8)[1] == '\\');
    }
}

/// Parts are pushed one after the other, the first one first.
pub proof fn parts_are_pushed_in_order(platform: Platform, base: Seq<char>, parts: Seq<Seq<char>>, part: Seq<char>)
    ensures
        pushed_all(platform, base, parts.push(part)) == pushed(
            platform,
            pushed_all(platform, base, parts),
            part,
        ),
        pushed_all(platform, base, Seq::empty()) == base,
{
    assert(parts.push(part).drop_last() =~= parts);
}

/// Without its marker a verbatim drive path is the drive, in capitals, with the names of the path
/// pushed one after the other; a path that has no marker stays as it is.
pub proof fn markers_are_dropped(path: Seq<char>)
    ensures
        path.len() >= 7 && path.take(4) == seq!['\\', '\\', '?', '\\'] && 'A' <= path[4] <= 'Z' && path[5]
            == ':' && path[6] == '\\' ==> unverbatim(Platform::Windows, path) == pushed_all(
            Platform::Windows,
            seq![path[4], ':', '\\'],
            names(Platform::Windows, path),
        ),
        path.len() < 2 || path[0] != '\\' || path[1] != '\\' ==> unverbatim(Platform::Windows, path)
            == path,
        unverbatim(Platform::Unix, path) == path,
{
    if path.len() >= 7 && path.take(4) == seq!['\\', '\\', '?', '\\'] && 'A' <= path[4] <= 'Z' && path[5]
        == ':' && path[6] == '\\' {
        assert(path.take(4)[0] == path[0]);
        assert(path.take(4)[1] == path[1]);
        assert(path.take(4)[2] == path[2]);
        assert(path.take(4)[3] == path[3]);
        assert(drive_root(seq![path[4]]) =~= seq![path[4], ':', '\\']);
    }
}

/// Away from Windows only `/` separates, and a backslash is an ordinary character; on Windows both
/// do, but in a verbatim path only the backslash does.
pub proof fn platforms_have_their_separators(c: char)
    ensures
        is_separator(Platform::Unix, c) <==> c == '/',
        is_separator(Platform::Windows, c) <==> c == '/' || c == '\\',
        separates(Platform::Windows, true, c) <==> c == '\\',
        main_separator(Platform::Unix) == '/',
        main_separator(Platform::Windows) == '\\',
{
}

/// A search for a separator finds the first one from its start on, and the end of the text where
/// there is none.
pub proof fn the_next_separator_is_the_first(s: Seq<char>, from: int, platform: Platform, verbatim: bool)
    requires
        0 <= from <= s.len(),
    ensures
        ({
            let at = next_separator(s, from, platform, verbatim);
            &&& from <= at <= s.len()
            &&& at < s.len() ==> separates(platform, verbatim, s[at])
            &&& forall|j: int| from <= j < at ==> !separates(platform, verbatim, #[trigger] s[j])
        }),
    decreases s.len() - from,
{
    if from < s.len() && !separates(platform, verbatim, s[from]) {
        the_next_separator_is_the_first(s, from + 1, platform, verbatim);
    }
}

/// The letters from A to Z name drives, in either case; the drive is told in capitals.
pub proof fn letters_name_drives(c: char)
    ensures
        is_drive_letter(c) <==> 'a' <= c <= 'z' || 'A' <= c <= 'Z',
        'A' <= c <= 'Z' ==> capital(c) == c,
        'a' <= c <= 'z' ==> capital(c) as int == c as int - 'a' as int + 'A' as int,
{
}

/// Which prefixes are verbatim, and which stand for a root by themselves.
pub proof fn prefixes_are_told_apart(kind: PrefixKind)
    ensures
        kind.is_verbatim() <==> kind == PrefixKind::VerbatimDisk || kind == PrefixKind::Verbatim || kind
            == PrefixKind::VerbatimUnc,
        kind.has_implicit_root() <==> kind != PrefixKind::Absent && kind != PrefixKind::Disk,
{
}

/// A letter and a colon at the beginning are a drive; behind the verbatim marker they are one too,
/// where nothing or a separator follows. Away from Windows nothing is a prefix.
pub proof fn drives_are_prefixes(s: Seq<char>)
    ensures
        prefix_of(Platform::Unix, s).kind is Absent && prefix_of(Platform::Unix, s).len == 0,
        s.len() >= 2 && is_drive_letter(s[0]) && s[1] == ':' ==> {
            let p = prefix_of(Platform::Windows, s);
            p.kind is Disk && p.first == seq![capital(s[0])] && p.len == 2
        },
        s.len() >= 6 && s[0] == '\\' && s[1] == '\\' && s[2] == '?' && s[3] == '\\' && is_drive_letter(s[4])
            && s[5] == ':' && (s.len() == 6 || s[6] == '\\' || s[6] == '/') ==> {
            let p = prefix_of(Platform::Windows, s);
            p.kind is VerbatimDisk && p.first == seq![capital(s[4])] && p.len == 6
        },
        s.len() >= 1 && s[0] != '\\' && s[0] != '/' && !(s.len() >= 2 && is_drive_letter(s[0]) && s[1]
            == ':') ==> prefix_of(Platform::Windows, s).kind is Absent,
{
}

proof fn lemma_ends_at(s: Seq<char>, from: int, at: int, verbatim: bool)
    requires
        0 <= from <= at <= s.len(),
        forall|j: int| from <= j < at ==> !separates(Platform::Windows, verbatim, #[trigger] s[j]),
        at == s.len() || separates(Platform::Windows, verbatim, s[at]),
    ensures
        next_separator(s, from, Platform::Windows, verbatim) == at,
    decreases at - from,
{
    if from < at {
        assert(!separates(Platform::Windows, verbatim, s[from]));
        lemma_ends_at(s, from + 1, at, verbatim);
    }
}

/// A server and a share behind two backslashes are a network share, whatever follows it behind a
/// backslash.
pub proof fn shares_are_prefixes(server: Seq<char>, share: Seq<char>, rest: Seq<char>)
    requires
        server.len() > 0,
        share.len() > 0,
        server != seq!['?'],
        server != seq!['.'],
        forall|i: int| 0 <= i < server.len() ==> #[trigger] server[i] != '\\' && server[i] != '/',
        forall|i: int| 0 <= i < share.len() ==> #[trigger] share[i] != '\\' && share[i] != '/',
        rest.len() == 0 || rest[0] == '\\',
    ensures
        ({
            let s = seq!['\\', '\\'] + server + seq!['\\'] + share + rest;
            let p = prefix_of(Platform::Windows, s);
            &&& p.kind is Unc
            &&& p.first == server
            &&& p.second == share
            &&& p.len == 3 + server.len() + share.len()
        }),
{
    let s = seq!['\\', '\\'] + server + seq!['\\'] + share + rest;
    let a = 2 + server.len() as int;
    let b = a + 1 + share.len() as int;
    assert forall|j: int| 2 <= j < a implies !separates(Platform::Windows, false, #[trigger] s[j]) by {
        assert(s[j] == server[j - 2]);
    }
    assert(s[a] == '\\');
    assert forall|j: int| a + 1 <= j < b implies !separates(Platform::Windows, false, #[trigger] s[j]) by {
        assert(s[j] == share[j - a - 1]);
    }
    if rest.len() > 0 {
        assert(s[b] == rest[0]);
    }
    lemma_ends_at(s, 2, a, false);
    lemma_ends_at(s, a + 1, b, false);
    assert(s.subrange(2, a) =~= server);
    assert(s.subrange(a + 1, b) =~= share);
    assert(s[2] == server[0]);
    if s.len() >= 4 && (s[2] == '?' || s[2] == '.') && (s[3] == '\\' || s[3] == '/') {
        if server.len() > 1 {
            assert(s[3] == server[1]);
        } else {
            assert(server =~= seq![server[0]]);
        }
    }
}

/// A piece between separators is a name unless it is empty, or a `.` that is neither in a verbatim
/// path nor at the beginning of a path without a root.
pub proof fn dots_and_gaps_are_no_names(piece: Seq<char>, i: int, verbatim: bool, has_root: bool)
    ensures
        piece.len() == 0 ==> !counts(piece, i, verbatim, has_root),
        piece.len() > 0 && piece != seq!['.'] ==> counts(piece, i, verbatim, has_root),
        piece == seq!['.'] ==> (counts(piece, i, verbatim, has_root) <==> verbatim || (i == 0
            && !has_root)),
{
}

/// A path has a root among its components where a separator stands behind its prefix, and where a
/// share or a device stands for one; a verbatim prefix alone does not.
pub proof fn roots_count_among_the_components(platform: Platform, s: Seq<char>)
    ensures
        has_root_component(Platform::Unix, s) <==> s.len() > 0 && s[0] == '/',
        ({
            let p = prefix_of(platform, s);
            let behind = p.len < s.len() && is_separator(platform, s[p.len]);
            &&& behind ==> has_root_component(platform, s)
            &&& !behind ==> (has_root_component(platform, s) <==> p.kind is Unc || p.kind is DeviceNs)
        }),
{
}

/// A path lies under one of the roots exactly where it begins as one of them does; without roots
/// every path does.
pub proof fn one_root_is_enough(platform: Platform, path: Seq<char>, roots: Seq<Seq<char>>, k: int)
    ensures
        roots.len() == 0 ==> is_under_any(platform, path, roots),
        0 <= k < roots.len() && starts_with(platform, path, roots[k]) ==> is_under_any(platform, path, roots),
        roots.len() > 0 && (forall|j: int|
            0 <= j < roots.len() ==> !starts_with(platform, path, #[trigger] roots[j]))
            ==> !is_under_any(platform, path, roots),
{
}

/// Names are followed one after the other: a name goes down, `.` stays, and `..` goes back over the
/// last name where there is one that can be gone back over.
pub proof fn names_are_followed_in_turn(from: Seq<Seq<char>>, part: Seq<Seq<char>>, name: Seq<char>)
    ensures
        followed(from, Seq::empty()) == from,
        ({
            let at = followed(from, part);
            let next = followed(from, part.push(name));
            &&& name != seq!['.'] && name != seq!['.', '.'] ==> next == at.push(name)
            &&& name == seq!['.'] ==> next == at
            &&& name == seq!['.', '.'] && at.len() > 0 && at.last() != seq!['.'] && at.last() != seq![
                '.',
                '.',
            ] ==> next == at.drop_last()
            &&& name == seq!['.', '.'] && at.len() == 0 ==> next == at
        }),
{
    assert(part.push(name).drop_last() =~= part);
    assert(part.push(name).last() == name);
    assert(seq!['.'].len() == 1);
    assert(seq!['.', '.'].len() == 2);
}

/// A verbatim path is written anew from its prefix and its names, each behind a backslash; a plain
/// name goes behind them.
pub proof fn verbatim_paths_are_written_anew(base: Seq<char>, name: Seq<char>, all: Seq<Seq<char>>)
    ensures
        behind_backslashes(all.push(name)) == behind_backslashes(all).push('\\') + name,
        behind_backslashes(Seq::empty()).len() == 0,
        prefix_of(Platform::Windows, base).kind.is_verbatim() && name.len() > 0 && prefix_of(
            Platform::Windows,
            name,
        ).kind is Absent && verbatim_names(Platform::Windows, base, name).len() > 0 ==> pushed(
            Platform::Windows,
            base,
            name,
        ) == base.subrange(0, prefix_of(Platform::Windows, base).len) + behind_backslashes(
            verbatim_names(Platform::Windows, base, name),
        ),
        has_physical_root(Platform::Windows, name) ==> verbatim_names(Platform::Windows, base, name)
            == followed(Seq::empty(), names(Platform::Windows, name)),
        !has_physical_root(Platform::Windows, name) ==> verbatim_names(Platform::Windows, base, name)
            == followed(names(Platform::Windows, base), names(Platform::Windows, name)),
{
    assert(all.push(name).drop_last() =~= all);
}

/// The other verbatim forms lose their marker of four characters and nothing else.
pub proof fn other_markers_are_cut_off(path: Seq<char>)
    ensures
        prefix_of(Platform::Windows, path).kind is Verbatim || prefix_of(
            Platform::Windows,
            path,
        ).kind is VerbatimUnc ==> unverbatim(Platform::Windows, path) == path.skip(4),
{
    if prefix_of(Platform::Windows, path).kind is Verbatim || prefix_of(
        Platform::Windows,
        path,
    ).kind is VerbatimUnc {
        assert(path.len() >= 4);
        assert(path.subrange(4, path.len() as int) =~= path.skip(4));
    }
}

/// Backslashes at the end are cut off, all of them and nothing else.
pub proof fn trailing_backslashes_are_cut_off(s: Seq<char>)
    ensures
        without_trailing_backslashes(s.push('\\')) == without_trailing_backslashes(s),
        s.len() > 0 && s.last() != '\\' ==> without_trailing_backslashes(s) == s,
        without_trailing_backslashes(Seq::empty()).len() == 0,
{
    assert(s.push('\\').drop_last() =~= s);
}

} // verus!
