//! The set of header directives that a generated file needs: header references
//! given by the user, kept in the order they were added, and flags for the
//! standard-library facilities, emitted in one fixed order.
use vstd::prelude::*;

use crate::escape::{char_escape, escape_default, escaped};

verus! {

/// Number of standard-library facilities that are emitted unconditionally
/// when flagged.
pub const STANDARD_COUNT: usize = 14;

/// Number of flags in all: the standard facilities, then the
/// platform-conditional ones.
pub const FLAG_COUNT: usize = 15;

/// How a header path is spelled: `"path"` or `<path>`.
#[derive(Clone, Copy, PartialEq, Eq, Debug, Structural)]
pub enum IncludeKind {
    Quoted,
    Bracketed,
}

/// A header reference. The path is never parsed nor looked up: it goes into
/// the output as it stands, between quotes or angle brackets.
#[derive(PartialEq, Debug)]
pub struct Include {
    /// The header's path, without the enclosing quotation marks or angle
    /// brackets.
    pub path: String,
    /// Whether the directive spells the path `"path"` or `<path>`.
    pub kind: IncludeKind,
}

impl Clone for Include {
    fn clone(&self) -> (r: Self)
        ensures
            r == *self,
    {
        Include { path: self.path.clone(), kind: self.kind }
    }
}

impl Include {
    /// A header reference spelled `"path"`.
    pub fn quoted(path: String) -> (r: Include)
        ensures
            r.path == path,
            r.kind == IncludeKind::Quoted,
    {
        Include { path, kind: IncludeKind::Quoted }
    }

    /// A header reference spelled `<path>`.
    pub fn bracketed(path: String) -> (r: Include)
        ensures
            r.path == path,
            r.kind == IncludeKind::Bracketed,
    {
        Include { path, kind: IncludeKind::Bracketed }
    }
}

/// A facility whose header the generated code may need. The order of the
/// variants is the order of emission.
#[derive(Clone, Copy, PartialEq, Eq, Debug, Structural)]
pub enum Facility {
    Algorithm,
    Array,
    Cstddef,
    Cstdint,
    Cstring,
    Exception,
    InitializerList,
    Iterator,
    Memory,
    New,
    String,
    TypeTraits,
    Utility,
    Vector,
    /// The Windows-only sized-integer header, emitted under a platform guard.
    Basetsd,
}

/// Position of a facility's flag; the standard facilities come first, in
/// emission order.
pub open spec fn rank(f: Facility) -> nat {
    match f {
        Facility::Algorithm => 0,
        Facility::Array => 1,
        Facility::Cstddef => 2,
        Facility::Cstdint => 3,
        Facility::Cstring => 4,
        Facility::Exception => 5,
        Facility::InitializerList => 6,
        Facility::Iterator => 7,
        Facility::Memory => 8,
        Facility::New => 9,
        Facility::String => 10,
        Facility::TypeTraits => 11,
        Facility::Utility => 12,
        Facility::Vector => 13,
        Facility::Basetsd => 14,
    }
}

impl Facility {
    /// Position of this facility's flag.
    pub fn index(self) -> (r: usize)
        ensures
            r as nat == rank(self),
            r < FLAG_COUNT,
    {
        match self {
            Facility::Algorithm => 0,
            Facility::Array => 1,
            Facility::Cstddef => 2,
            Facility::Cstdint => 3,
            Facility::Cstring => 4,
            Facility::Exception => 5,
            Facility::InitializerList => 6,
            Facility::Iterator => 7,
            Facility::Memory => 8,
            Facility::New => 9,
            Facility::String => 10,
            Facility::TypeTraits => 11,
            Facility::Utility => 12,
            Facility::Vector => 13,
            Facility::Basetsd => 14,
        }
    }
}

/// Name of the header of the standard facility at position `i`.
pub open spec fn standard_header(i: int) -> Seq<char> {
    if i == 0 {
        "algorithm"@
    } else if i == 1 {
        "array"@
    } else if i == 2 {
        "cstddef"@
    } else if i == 3 {
        "cstdint"@
    } else if i == 4 {
        "cstring"@
    } else if i == 5 {
        "exception"@
    } else if i == 6 {
        "initializer_list"@
    } else if i == 7 {
        "iterator"@
    } else if i == 8 {
        "memory"@
    } else if i == 9 {
        "new"@
    } else if i == 10 {
        "string"@
    } else if i == 11 {
        "type_traits"@
    } else if i == 12 {
        "utility"@
    } else {
        "vector"@
    }
}

fn standard_header_name(i: usize) -> (r: &'static str)
    requires
        i < STANDARD_COUNT,
    ensures
        r@ == standard_header(i as int),
{
    match i {
        0 => "algorithm",
        1 => "array",
        2 => "cstddef",
        3 => "cstdint",
        4 => "cstring",
        5 => "exception",
        6 => "initializer_list",
        7 => "iterator",
        8 => "memory",
        9 => "new",
        10 => "string",
        11 => "type_traits",
        12 => "utility",
        _ => "vector",
    }
}

/// The directive that a user header reference becomes: a quoted path is
/// escaped, a bracketed one is taken verbatim.
pub open spec fn custom_line(item: Include) -> Seq<char> {
    match item.kind {
        IncludeKind::Quoted => "#include \""@ + escaped(item.path@) + "\""@,
        IncludeKind::Bracketed => "#include <"@ + item.path@ + ">"@,
    }
}

/// The directives of the user header references, one each, in order.
pub open spec fn custom_lines(items: Seq<Include>) -> Seq<Seq<char>> {
    items.map_values(|item: Include| custom_line(item))
}

/// The directive of the standard facility at position `i`.
pub open spec fn standard_line(i: int) -> Seq<char> {
    "#include <"@ + standard_header(i) + ">"@
}

/// The directives of the flagged standard facilities among the first `n`,
/// in position order.
pub open spec fn standard_lines(flags: Seq<bool>, n: nat) -> Seq<Seq<char>>
    decreases n,
{
    if n == 0 {
        Seq::empty()
    } else if flags[n - 1] {
        standard_lines(flags, (n - 1) as nat).push(standard_line(n - 1))
    } else {
        standard_lines(flags, (n - 1) as nat)
    }
}

/// The guarded block for the Windows-only sized-integer header.
pub open spec fn platform_lines() -> Seq<Seq<char>> {
    seq!["#if defined(_WIN32)"@, "#include <basetsd.h>"@, "#endif"@]
}

/// The opening directive of a header file.
pub open spec fn pragma_lines(header: bool) -> Seq<Seq<char>> {
    if header {
        seq!["#pragma once"@]
    } else {
        Seq::empty()
    }
}

/// The platform-conditional section, if its flag is set.
pub open spec fn platform_section(flags: Seq<bool>) -> Seq<Seq<char>> {
    if flags[STANDARD_COUNT as int] {
        platform_lines()
    } else {
        Seq::empty()
    }
}

/// Every line that finalisation emits, in order: the pragma of a header file,
/// the user references, the flagged standard facilities, the platform block.
pub open spec fn rendered_lines(header: bool, custom: Seq<Include>, flags: Seq<bool>) -> Seq<
    Seq<char>,
> {
    pragma_lines(header) + custom_lines(custom) + standard_lines(flags, STANDARD_COUNT as nat)
        + platform_section(flags)
}

/// Lines as text: each line followed by a line feed.
pub open spec fn text_of(lines: Seq<Seq<char>>) -> Seq<char>
    decreases lines.len(),
{
    if lines.len() == 0 {
        Seq::empty()
    } else {
        text_of(lines.drop_last()) + lines.last() + seq!['\n']
    }
}

/// What an `Includes` holds: the user references in order, one flag per
/// facility, and the text emitted so far.
pub struct IncludesView {
    pub custom: Seq<Include>,
    pub flags: Seq<bool>,
    pub content: Seq<char>,
}

/// The header references and facility flags of one generated file, with the
/// text buffer that finalisation appends to.
pub struct Includes {
    custom: Vec<Include>,
    flags: Vec<bool>,
    content: String,
}

impl View for Includes {
    type V = IncludesView;

    closed spec fn view(&self) -> IncludesView {
        IncludesView { custom: self.custom@, flags: self.flags@, content: self.content@ }
    }
}

impl Includes {
    /// One flag for every facility.
    pub open spec fn wf(&self) -> bool {
        self@.flags.len() == FLAG_COUNT
    }

    /// An empty set: no user references, no flag set, no text.
    pub fn new() -> (r: Includes)
        ensures
            r.wf(),
            r@.custom == Seq::<Include>::empty(),
            forall|i: int| 0 <= i < FLAG_COUNT ==> !#[trigger] r@.flags[i],
            r@.content == Seq::<char>::empty(),
    {
        let mut flags: Vec<bool> = Vec::new();
        let mut i: usize = 0;
        while i < FLAG_COUNT
            invariant
                i <= FLAG_COUNT,
                flags@.len() == i,
                forall|j: int| 0 <= j < i ==> !#[trigger] flags@[j],
            decreases FLAG_COUNT - i,
        {
            flags.push(false);
            i = i + 1;
        }
        Includes { custom: Vec::new(), flags, content: String::new() }
    }

    /// Appends a user header reference. Duplicates are kept.
    pub fn insert(&mut self, item: Include)
        requires
            old(self).wf(),
        ensures
            final(self).wf(),
            final(self)@.custom == old(self)@.custom.push(item),
            final(self)@.flags == old(self)@.flags,
            final(self)@.content == old(self)@.content,
    {
        self.custom.push(item);
    }

    /// Appends copies of the given header references, in their order.
    pub fn extend(&mut self, items: &[Include])
        requires
            old(self).wf(),
        ensures
            final(self).wf(),
            final(self)@.custom == old(self)@.custom + items@,
            final(self)@.flags == old(self)@.flags,
            final(self)@.content == old(self)@.content,
    {
        let mut i: usize = 0;
        while i < items.len()
            invariant
                self.wf(),
                i <= items@.len(),
                self@.custom == old(self)@.custom + items@.take(i as int),
                self@.flags == old(self)@.flags,
                self@.content == old(self)@.content,
            decreases items@.len() - i,
        {
            let item = items[i].clone();
            self.custom.push(item);
            i = i + 1;
            assert(items@.take(i as int) == items@.take(i - 1).push(items@[i - 1]));
        }
        assert(items@.take(items@.len() as int) == items@);
    }

    /// Marks a facility as needed. Setting a flag that is already set
    /// changes nothing.
    pub fn require(&mut self, f: Facility)
        requires
            old(self).wf(),
        ensures
            final(self).wf(),
            final(self)@.custom == old(self)@.custom,
            final(self)@.flags == old(self)@.flags.update(rank(f) as int, true),
            final(self)@.content == old(self)@.content,
    {
        let i = f.index();
        self.flags.set(i, true);
    }

    /// Whether a facility has been marked as needed.
    pub fn is_required(&self, f: Facility) -> (r: bool)
        requires
            self.wf(),
        ensures
            r == self@.flags[rank(f) as int],
    {
        self.flags[f.index()]
    }

    /// The user header references, in the order they were added.
    pub fn custom(&self) -> (r: &[Include])
        ensures
            r@ == self@.custom,
    {
        self.custom.as_slice()
    }

    /// The text emitted so far.
    pub fn content(&self) -> (r: &str)
        ensures
            r@ == self@.content,
    {
        self.content.as_str()
    }
}

proof fn lemma_text_push(lines: Seq<Seq<char>>, line: Seq<char>)
    ensures
        text_of(lines.push(line)) == text_of(lines) + line + seq!['\n'],
        text_of(Seq::<Seq<char>>::empty()) == Seq::<char>::empty(),
{
    assert(lines.push(line).drop_last() == lines);
}

impl Default for Includes {
    /// The same as `Includes::new`.
    fn default() -> (r: Includes)
        ensures
            r.wf(),
            r@.custom == Seq::<Include>::empty(),
            forall|i: int| 0 <= i < FLAG_COUNT ==> !#[trigger] r@.flags[i],
            r@.content == Seq::<char>::empty(),
    {
        Includes::new()
    }
}

/// Appends `line` and a line feed.
fn emit(out: &mut String, line: &str)
    ensures
        final(out)@ == old(out)@ + line@ + seq!['\n'],
{
    out.append(line);
    out.append("\n");
    proof {
        reveal_strlit("\n");
    }
}

/// The directive of one user header reference.
fn render_custom(item: &Include) -> (r: String)
    ensures
        r@ == custom_line(*item),
{
    match item.kind {
        IncludeKind::Quoted => {
            let mut line = String::from_str("#include \"");
            let path = escape_default(item.path.as_str());
            line.append(path.as_str());
            line.append("\"");
            line
        },
        IncludeKind::Bracketed => {
            let mut line = String::from_str("#include <");
            line.append(item.path.as_str());
            line.append(">");
            line
        },
    }
}

/// Appends every directive of `includes` to its text, one per line: the
/// pragma when the output is a header file, then the user references in
/// their order, then the flagged standard facilities in their fixed order,
/// then the guarded platform block if its flag is set.
pub fn write(header: bool, includes: &mut Includes)
    requires
        old(includes).wf(),
    ensures
        final(includes).wf(),
        final(includes)@.custom == old(includes)@.custom,
        final(includes)@.flags == old(includes)@.flags,
        final(includes)@.content == old(includes)@.content + text_of(
            rendered_lines(header, old(includes)@.custom, old(includes)@.flags),
        ),
{
    let ghost start = includes@.content;
    let ghost mut lines: Seq<Seq<char>> = Seq::empty();
    if header {
        emit(&mut includes.content, "#pragma once");
        proof {
            lemma_text_push(lines, "#pragma once"@);
            lines = lines.push("#pragma once"@);
        }
    }
    assert(lines == pragma_lines(header));
    assert(includes@.content =~= start + text_of(lines));
    let mut i: usize = 0;
    while i < includes.custom.len()
        invariant
            includes.wf(),
            includes@.custom == old(includes)@.custom,
            includes@.flags == old(includes)@.flags,
            i <= includes@.custom.len(),
            lines == pragma_lines(header) + custom_lines(includes@.custom.take(i as int)),
            includes@.content == start + text_of(lines),
        decreases includes@.custom.len() - i,
    {
        let line = render_custom(&includes.custom[i]);
        emit(&mut includes.content, line.as_str());
        proof {
            let prev = lines;
            lines = lines.push(line@);
            assert(lines.drop_last() == prev);
            assert(includes@.content =~= start + text_of(lines));
            assert(includes@.custom.take(i + 1) == includes@.custom.take(i as int).push(
                includes@.custom[i as int],
            ));
            assert(custom_lines(includes@.custom.take(i + 1)) == custom_lines(
                includes@.custom.take(i as int),
            ).push(line@));
        }
        i = i + 1;
    }
    assert(includes@.custom.take(i as int) == includes@.custom);
    let ghost before_standard = lines;
    let mut k: usize = 0;
    while k < STANDARD_COUNT
        invariant
            includes.wf(),
            includes@.custom == old(includes)@.custom,
            includes@.flags == old(includes)@.flags,
            k <= STANDARD_COUNT,
            lines == before_standard + standard_lines(includes@.flags, k as nat),
            includes@.content == start + text_of(lines),
        decreases STANDARD_COUNT - k,
    {
        if includes.flags[k] {
            let mut line = String::from_str("#include <");
            line.append(standard_header_name(k));
            line.append(">");
            emit(&mut includes.content, line.as_str());
            proof {
                let prev = lines;
                lines = lines.push(line@);
                assert(lines.drop_last() == prev);
                assert(includes@.content =~= start + text_of(lines));
            }
        }
        k = k + 1;
    }
    if includes.flags[STANDARD_COUNT] {
        let ghost l0 = lines;
        emit(&mut includes.content, "#if defined(_WIN32)");
        proof {
            lemma_text_push(lines, "#if defined(_WIN32)"@);
            lines = lines.push("#if defined(_WIN32)"@);
            assert(includes@.content =~= start + text_of(lines));
        }
        emit(&mut includes.content, "#include <basetsd.h>");
        proof {
            lemma_text_push(lines, "#include <basetsd.h>"@);
            lines = lines.push("#include <basetsd.h>"@);
            assert(includes@.content =~= start + text_of(lines));
        }
        emit(&mut includes.content, "#endif");
        proof {
            lemma_text_push(lines, "#endif"@);
            lines = lines.push("#endif"@);
            assert(includes@.content =~= start + text_of(lines));
            assert(lines =~= l0 + platform_lines());
        }
    }
    assert(lines =~= rendered_lines(header, old(includes)@.custom, old(includes)@.flags));
}

/// The flags after marking each facility of `ops` in turn, starting from
/// `start`.
pub open spec fn flags_after(start: Seq<bool>, ops: Seq<Facility>) -> Seq<bool>
    decreases ops.len(),
{
    if ops.len() == 0 {
        start
    } else {
        flags_after(start, ops.drop_last()).update(rank(ops.last()) as int, true)
    }
}

proof fn lemma_flags_after(start: Seq<bool>, ops: Seq<Facility>)
    requires
        start.len() == FLAG_COUNT,
    ensures
        flags_after(start, ops).len() == FLAG_COUNT,
        forall|i: int|
            0 <= i < FLAG_COUNT ==> #[trigger] flags_after(start, ops)[i] == (start[i] || exists|
                k: int,
            | 0 <= k < ops.len() && rank(ops[k]) == i),
    decreases ops.len(),
{
    if ops.len() > 0 {
        let prev = ops.drop_last();
        lemma_flags_after(start, prev);
        assert forall|i: int| 0 <= i < FLAG_COUNT implies #[trigger] flags_after(start, ops)[i] == (
        start[i] || exists|k: int| 0 <= k < ops.len() && rank(ops[k]) == i) by {
            if exists|k: int| 0 <= k < prev.len() && rank(prev[k]) == i {
                let k = choose|k: int| 0 <= k < prev.len() && rank(prev[k]) == i;
                assert(ops[k] == prev[k]);
            }
            if exists|k: int| 0 <= k < ops.len() && rank(ops[k]) == i {
                let k = choose|k: int| 0 <= k < ops.len() && rank(ops[k]) == i;
                if k < prev.len() {
                    assert(prev[k] == ops[k]);
                }
            }
        }
    }
}

/// The flags, and so the emitted text, depend only on which facilities were
/// marked: not on the order of the marks, nor on how often each was marked.
pub proof fn lemma_marks_order_free(start: Seq<bool>, ops1: Seq<Facility>, ops2: Seq<Facility>)
    requires
        start.len() == FLAG_COUNT,
        forall|f: Facility| ops1.contains(f) <==> ops2.contains(f),
    ensures
        flags_after(start, ops1) == flags_after(start, ops2),
{
    lemma_flags_after(start, ops1);
    lemma_flags_after(start, ops2);
    assert forall|i: int| 0 <= i < FLAG_COUNT implies flags_after(start, ops1)[i] == flags_after(
        start,
        ops2,
    )[i] by {
        if exists|k: int| 0 <= k < ops1.len() && rank(ops1[k]) == i {
            let k = choose|k: int| 0 <= k < ops1.len() && rank(ops1[k]) == i;
            assert(ops1.contains(ops1[k]));
            let k2 = choose|k2: int| 0 <= k2 < ops2.len() && ops2[k2] == ops1[k];
            assert(rank(ops2[k2]) == i);
        }
        if exists|k: int| 0 <= k < ops2.len() && rank(ops2[k]) == i {
            let k = choose|k: int| 0 <= k < ops2.len() && rank(ops2[k]) == i;
            assert(ops2.contains(ops2[k]));
            let k1 = choose|k1: int| 0 <= k1 < ops1.len() && ops1[k1] == ops2[k];
            assert(rank(ops1[k1]) == i);
        }
    }
    assert(flags_after(start, ops1) =~= flags_after(start, ops2));
}

/// Number of times `line` occurs in `lines`.
pub open spec fn occurrences(lines: Seq<Seq<char>>, line: Seq<char>) -> nat
    decreases lines.len(),
{
    if lines.len() == 0 {
        0
    } else {
        occurrences(lines.drop_last(), line) + if lines.last() == line {
            1nat
        } else {
            0nat
        }
    }
}

proof fn lemma_standard_headers_distinct(i: int, j: int)
    requires
        0 <= i < STANDARD_COUNT,
        0 <= j < STANDARD_COUNT,
        i != j,
    ensures
        standard_line(i) != standard_line(j),
{
    reveal_strlit("algorithm");
    reveal_strlit("array");
    reveal_strlit("cstddef");
    reveal_strlit("cstdint");
    reveal_strlit("cstring");
    reveal_strlit("exception");
    reveal_strlit("initializer_list");
    reveal_strlit("iterator");
    reveal_strlit("memory");
    reveal_strlit("new");
    reveal_strlit("string");
    reveal_strlit("type_traits");
    reveal_strlit("utility");
    reveal_strlit("vector");
    reveal_strlit("#include <");
    reveal_strlit(">");
    let a = standard_header(i);
    let b = standard_header(j);
    if standard_line(i) == standard_line(j) {
        assert(standard_line(i).len() == a.len() + 11);
        assert(a.len() == b.len());
        assert(standard_line(i).subrange(10, 10 + a.len() as int) =~= a);
        assert(standard_line(j).subrange(10, 10 + b.len() as int) =~= b);
        assert(a == b);
        assert(a[0] == b[0]);
        assert(a[1] == b[1]);
        assert(a[2] == b[2]);
        assert(a[3] == b[3]);
        if a.len() > 4 {
            assert(a[4] == b[4]);
        }
        if a.len() > 5 {
            assert(a[5] == b[5]);
        }
    }
}

proof fn lemma_standard_count(flags: Seq<bool>, n: nat, r: int)
    requires
        n <= STANDARD_COUNT,
        0 <= r < STANDARD_COUNT,
        flags[r],
    ensures
        occurrences(standard_lines(flags, n), standard_line(r)) == if r < n {
            1nat
        } else {
            0nat
        },
    decreases n,
{
    if n > 0 {
        lemma_standard_count(flags, (n - 1) as nat, r);
        let prev = standard_lines(flags, (n - 1) as nat);
        if flags[n - 1] {
            assert(prev.push(standard_line(n - 1)).drop_last() == prev);
            if n - 1 != r {
                lemma_standard_headers_distinct(n - 1, r);
            }
        }
    }
}

/// A flagged standard facility yields exactly one directive in the standard
/// section, however many times it was marked.
pub proof fn lemma_flag_emitted_once(flags: Seq<bool>, f: Facility)
    requires
        flags.len() == FLAG_COUNT,
        rank(f) < STANDARD_COUNT,
        flags[rank(f) as int],
    ensures
        occurrences(standard_lines(flags, STANDARD_COUNT as nat), standard_line(rank(f) as int))
            == 1,
{
    lemma_standard_count(flags, STANDARD_COUNT as nat, rank(f) as int);
}

proof fn lemma_standard_positions(flags: Seq<bool>, n: nat)
    ensures
        forall|i: int|
            0 <= i < n && flags[i] ==> #[trigger] standard_lines(flags, n)[standard_lines(
                flags,
                i as nat,
            ).len() as int] == standard_line(i),
        forall|i: int, j: int|
            0 <= i < j <= n ==> #[trigger] standard_lines(flags, i as nat).len()
                + (if flags[i] {
                1int
            } else {
                0int
            }) <= #[trigger] standard_lines(flags, j as nat).len(),
    decreases n,
{
    if n > 0 {
        let m = (n - 1) as nat;
        lemma_standard_positions(flags, m);
        let prev = standard_lines(flags, m);
        assert forall|i: int|
            0 <= i < n && flags[i] implies #[trigger] standard_lines(flags, n)[standard_lines(
            flags,
            i as nat,
        ).len() as int] == standard_line(i) by {
            if i < m {
                assert(standard_lines(flags, i as nat).len() + 1 <= prev.len());
            } else {
                assert(standard_lines(flags, n) == prev.push(standard_line(i)));
            }
        }
        assert forall|i: int, j: int| 0 <= i < j <= n implies #[trigger] standard_lines(
            flags,
            i as nat,
        ).len() + (if flags[i] {
            1int
        } else {
            0int
        }) <= #[trigger] standard_lines(flags, j as nat).len() by {
            if j == n && i < m {
                assert(standard_lines(flags, i as nat).len() + (if flags[i] {
                    1int
                } else {
                    0int
                }) <= prev.len());
            }
        }
    }
}

/// The emitted lines come in sections: the pragma of a header file first,
/// then the user references in the order they were added, then the flagged
/// standard facilities, each at the place given by how many flagged ones
/// precede it in the fixed order, then the platform block.
pub proof fn lemma_section_order(header: bool, custom: Seq<Include>, flags: Seq<bool>)
    requires
        flags.len() == FLAG_COUNT,
    ensures
        ({
            let lines = rendered_lines(header, custom, flags);
            let h = pragma_lines(header).len() as int;
            let n = custom.len() as int;
            let standard = standard_lines(flags, STANDARD_COUNT as nat);
            let m = standard.len() as int;
            &&& header ==> lines[0] == "#pragma once"@
            &&& lines.len() == h + n + m + platform_section(flags).len()
            &&& forall|i: int| 0 <= i < n ==> lines[h + i] == custom_line(#[trigger] custom[i])
            &&& forall|i: int|
                0 <= i < STANDARD_COUNT && flags[i] ==> lines[h + n + standard_lines(
                    flags,
                    i as nat,
                ).len()] == #[trigger] standard_line(i)
            &&& forall|i: int, j: int|
                0 <= i < j < STANDARD_COUNT && flags[i] ==> #[trigger] standard_lines(
                    flags,
                    i as nat,
                ).len() < #[trigger] standard_lines(flags, j as nat).len()
            &&& forall|i: int|
                0 <= i < STANDARD_COUNT && flags[i] ==> standard_lines(flags, i as nat).len() < m
            &&& flags[STANDARD_COUNT as int] ==> lines.subrange(h + n + m, lines.len() as int)
                == platform_lines()
        }),
{
    let lines = rendered_lines(header, custom, flags);
    let h = pragma_lines(header).len() as int;
    let n = custom.len() as int;
    let standard = standard_lines(flags, STANDARD_COUNT as nat);
    let m = standard.len() as int;
    lemma_standard_positions(flags, STANDARD_COUNT as nat);
    assert forall|i: int| 0 <= i < STANDARD_COUNT && flags[i] implies standard_lines(
        flags,
        i as nat,
    ).len() < m by {
        let top: int = STANDARD_COUNT as int;
        assert(standard_lines(flags, i as nat).len() + 1 <= standard_lines(flags, top as nat).len());
    }
    assert forall|i: int, j: int|
        0 <= i < j < STANDARD_COUNT && flags[i] implies #[trigger] standard_lines(
        flags,
        i as nat,
    ).len() < #[trigger] standard_lines(flags, j as nat).len() by {
        assert(standard_lines(flags, i as nat).len() + 1 <= standard_lines(flags, j as nat).len());
    }
    if flags[STANDARD_COUNT as int] {
        assert(lines.subrange(h + n + m, lines.len() as int) =~= platform_lines());
    }
}

proof fn lemma_escaped_concat(a: Seq<char>, b: Seq<char>)
    ensures
        escaped(a + b) == escaped(a) + escaped(b),
    decreases b.len(),
{
    if b.len() == 0 {
        assert(a + b =~= a);
        assert(escaped(b) =~= Seq::<char>::empty());
        assert(escaped(a) + escaped(b) =~= escaped(a));
    } else {
        let b0 = b.drop_last();
        lemma_escaped_concat(a, b0);
        assert((a + b).drop_last() =~= a + b0);
        assert((a + b).last() == b.last());
        assert(escaped(a + b) =~= escaped(a) + escaped(b));
    }
}

/// A quote or a backslash in a quoted path comes out preceded by a backslash,
/// the rest of the path escaped around it; a bracketed path comes out as it
/// is.
pub proof fn lemma_quoted_path_escaped(item: Include, a: Seq<char>, c: char, b: Seq<char>)
    requires
        item.path@ == a + seq![c] + b,
        c == '"' || c == '\\',
    ensures
        item.kind == IncludeKind::Quoted ==> custom_line(item) == "#include \""@ + escaped(a)
            + seq!['\\', c] + escaped(b) + "\""@,
        item.kind == IncludeKind::Bracketed ==> custom_line(item) == "#include <"@ + a + seq![c]
            + b + ">"@,
{
    lemma_escaped_concat(a + seq![c], b);
    lemma_escaped_concat(a, seq![c]);
    assert(seq![c].drop_last() =~= Seq::<char>::empty());
    assert(seq![c].last() == c);
    assert(escaped(Seq::<char>::empty()) == Seq::<char>::empty());
    assert(char_escape(c) == seq!['\\', c]);
    assert(escaped(seq![c]) =~= seq!['\\', c]);
    if item.kind == IncludeKind::Quoted {
        assert(custom_line(item) =~= "#include \""@ + escaped(a) + seq!['\\', c] + escaped(b)
            + "\""@);
    } else {
        assert(custom_line(item) =~= "#include <"@ + a + seq![c] + b + ">"@);
    }
}

/// Finalisation is deterministic: two sets with the same references and the
/// same flags emit the same text.
pub proof fn lemma_write_deterministic(header: bool, a: IncludesView, b: IncludesView)
    requires
        a.custom == b.custom,
        a.flags == b.flags,
    ensures
        text_of(rendered_lines(header, a.custom, a.flags)) == text_of(
            rendered_lines(header, b.custom, b.flags),
        ),
{
}

} // verus!
