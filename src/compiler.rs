//! The resident compiler's line protocol: the commands sent to it and the
//! framing of the results it prints.

use vstd::prelude::*;

verus! {

/// True when the segment `lib` occupies `s[i..i + 3]` as a whole
/// '/'-separated segment.
pub open spec fn lib_segment_at(s: Seq<char>, i: int) -> bool {
    &&& 0 <= i
    &&& i + 3 <= s.len()
    &&& s[i] == 'l' && s[i + 1] == 'i' && s[i + 2] == 'b'
    &&& (i == 0 || s[i - 1] == '/')
    &&& (i + 3 == s.len() || s[i + 3] == '/')
}

/// The package URI for a path: `package:<pkg>` followed by what comes after
/// the last `lib` segment of the path (nothing when it has none).
pub open spec fn package_uri(path: Seq<char>, pkg: Seq<char>) -> Seq<char> {
    if exists|i: int| lib_segment_at(path, i) {
        let i = choose|i: int|
            lib_segment_at(path, i) && forall|j: int| i < j ==> !lib_segment_at(path, j);
        "package:"@ + pkg + path.subrange(i + 3, path.len() as int)
    } else {
        "package:"@ + pkg
    }
}

/// Rewrites a filesystem path into the compiler's `package:` address space.
pub fn to_package_uri(path: &str, pkg: &str) -> (r: String)
    ensures
        r@ == package_uri(path@, pkg@),
{
    let n = path.unicode_len();
    let mut last: Option<usize> = None;
    let mut i: usize = 0;
    while i < n
        invariant
            n == path@.len(),
            i <= n,
            match last {
                Some(k) => lib_segment_at(path@, k as int) && k < i && forall|j: int|
                    k < j < i ==> !lib_segment_at(path@, j),
                None => forall|j: int| 0 <= j < i ==> !lib_segment_at(path@, j),
            },
        decreases n - i,
    {
        if 3 <= n - i && path.get_char(i) == 'l' && path.get_char(i + 1) == 'i'
            && path.get_char(i + 2) == 'b' && (i == 0 || path.get_char(i - 1) == '/') && (i + 3 == n || path.get_char(i + 3) == '/')
        {
            last = Some(i);
        }
        i = i + 1;
    }
    let mut r = String::from_str("package:");
    r.append(pkg);
    match last {
        Some(k) => {
            r.append(path.substring_char(k + 3, n));
            proof {
                assert(forall|j: int| k < j ==> !lib_segment_at(path@, j));
                let c = choose|c: int|
                    lib_segment_at(path@, c) && forall|j: int| c < j ==> !lib_segment_at(path@, j);
                assert(c == k as int);
            }
        },
        None => {
            assert(forall|j: int| !lib_segment_at(path@, j));
        },
    }
    r
}

/// `p` is a prefix of `s`.
pub open spec fn starts_with(s: Seq<char>, p: Seq<char>) -> bool {
    p.len() <= s.len() && s.subrange(0, p.len() as int) == p
}

/// Index of the first space in `s` at or after `k`, or `s.len()` if none.
pub open spec fn next_space(s: Seq<char>, k: int) -> int
    decreases s.len() - k,
{
    if k < 0 || k >= s.len() {
        s.len() as int
    } else if s[k] == ' ' {
        k
    } else {
        next_space(s, k + 1)
    }
}

pub open spec fn is_digit(c: char) -> bool {
    '0' <= c && c <= '9'
}

/// Value of a sequence of decimal digits.
pub open spec fn digits_value(s: Seq<char>) -> int
    decreases s.len(),
{
    if s.len() == 0 {
        0
    } else {
        digits_value(s.drop_last()) * 10 + (s.last() as int - '0' as int)
    }
}

pub open spec fn all_digits(s: Seq<char>) -> bool {
    forall|i: int| 0 <= i < s.len() ==> is_digit(#[trigger] s[i])
}

pub open spec fn has_sign(s: Seq<char>) -> bool {
    s.len() > 0 && (s[0] == '-' || s[0] == '+')
}

/// What follows the optional sign.
pub open spec fn unsigned_part(s: Seq<char>) -> Seq<char> {
    if has_sign(s) {
        s.drop_first()
    } else {
        s
    }
}

/// A decimal `i32`: an optional sign, then at least one digit, in range.
pub open spec fn decimal_i32(s: Seq<char>) -> Option<int> {
    let ds = unsigned_part(s);
    let v = if s.len() > 0 && s[0] == '-' {
        -digits_value(ds)
    } else {
        digits_value(ds)
    };
    if ds.len() > 0 && all_digits(ds) && i32::MIN <= v <= i32::MAX {
        Some(v)
    } else {
        None
    }
}

/// The payload of a terminating line, given `tail`, what follows the key:
/// ` <path> <count> ...`, the first two space-separated fields after the
/// key, the second read as a decimal `i32`.
pub open spec fn result_payload(tail: Seq<char>) -> Option<(Seq<char>, int)> {
    let b = next_space(tail, 1);
    let c = next_space(tail, b + 1);
    if tail.len() > 0 && tail[0] == ' ' && b < tail.len() {
        match decimal_i32(tail.subrange(b + 1, c)) {
            Some(n) => Some((tail.subrange(1, b), n)),
            None => None,
        }
    } else {
        None
    }
}

pub open spec fn payload_path(tail: Seq<char>) -> Seq<char> {
    let (path, _count) = result_payload(tail)->0;
    path
}

pub open spec fn payload_count(tail: Seq<char>) -> int {
    let (_path, count) = result_payload(tail)->0;
    count
}

/// What follows the key `key` in `line`.
pub open spec fn after_key(line: Seq<char>, key: Seq<char>) -> Seq<char> {
    line.subrange(key.len() as int, line.len() as int)
}

fn has_prefix(s: &str, p: &str) -> (r: bool)
    ensures
        r == starts_with(s@, p@),
{
    let n = s.unicode_len();
    let m = p.unicode_len();
    if m > n {
        return false;
    }
    let mut i: usize = 0;
    while i < m
        invariant
            n == s@.len(),
            m == p@.len(),
            m <= n,
            i <= m,
            forall|j: int| 0 <= j < i ==> s@[j] == p@[j],
        decreases m - i,
    {
        if s.get_char(i) != p.get_char(i) {
            return false;
        }
        i = i + 1;
    }
    assert(s@.subrange(0, m as int) =~= p@);
    true
}

fn find_space(s: &str, from: usize) -> (r: usize)
    requires
        from <= s@.len(),
    ensures
        r as int == next_space(s@, from as int),
        from <= r <= s@.len(),
{
    let n = s.unicode_len();
    let mut i = from;
    while i < n
        invariant
            n == s@.len(),
            from <= i <= n,
            next_space(s@, from as int) == next_space(s@, i as int),
        decreases n - i,
    {
        if s.get_char(i) == ' ' {
            return i;
        }
        i = i + 1;
    }
    i
}

/// Reads a decimal `i32`, with an optional sign.
fn parse_i32(s: &str) -> (r: Option<i32>)
    ensures
        r matches Some(v) ==> decimal_i32(s@) == Some(v as int),
        r is None ==> decimal_i32(s@) is None,
{
    let n = s.unicode_len();
    let neg = n > 0 && s.get_char(0) == '-';
    let signed = n > 0 && (s.get_char(0) == '-' || s.get_char(0) == '+');
    let start: usize = if signed { 1 } else { 0 };
    let ghost ds = unsigned_part(s@);
    if start >= n {
        return None;
    }
    let mut v: u64 = 0;
    let mut over = false;
    let mut i = start;
    while i < n
        invariant
            n == s@.len(),
            start <= i <= n,
            signed == (s@.len() > 0 && (s@[0] == '-' || s@[0] == '+')),
            neg == (s@.len() > 0 && s@[0] == '-'),
            ds == unsigned_part(s@),
            ds == s@.subrange(start as int, n as int),
            forall|j: int| start <= j < i ==> is_digit(s@[j]),
            !over ==> v as int == digits_value(s@.subrange(start as int, i as int)),
            !over ==> v <= 2147483648,
            over ==> digits_value(s@.subrange(start as int, i as int)) > 2147483648,
        decreases n - i,
    {
        let c = s.get_char(i);
        if !('0' <= c && c <= '9') {
            proof {
                let j = i - start;
                assert(ds[j] == s@[i as int]);
                assert(!all_digits(ds));
            }
            return None;
        }
        let d = (c as u32 - '0' as u32) as u64;
        proof {
            let pre = s@.subrange(start as int, i as int);
            assert(s@.subrange(start as int, i + 1).drop_last() =~= pre);
        }
        if !over {
            v = v * 10 + d;
            if v > 2147483648 {
                over = true;
            }
        }
        i = i + 1;
    }
    assert(ds =~= s@.subrange(start as int, n as int));
    if over {
        return None;
    }
    if neg {
        Some((0 - v as i64) as i32)
    } else if v <= 2147483647 {
        Some(v as i32)
    } else {
        None
    }
}

/// A finished compile: the artifact's path and the number of errors.
#[derive(Debug)]
pub struct CompileOutput {
    pub output: String,
    pub errors: i32,
}

/// Reads the compiler's output line by line and recognises result blocks:
/// `result <key>` opens one, and the next line that starts with `<key>`
/// closes it.
pub struct CompilerOutputHandler {
    boundary_key: String,
}

impl CompilerOutputHandler {
    /// The key of the open result block; empty while none is open.
    pub closed spec fn key(&self) -> Seq<char> {
        self.boundary_key@
    }

    pub fn new() -> (r: CompilerOutputHandler)
        ensures
            r.key().len() == 0,
    {
        CompilerOutputHandler { boundary_key: String::new() }
    }

    pub fn boundary_key(&self) -> (r: &str)
        ensures
            r@ == self.key(),
    {
        self.boundary_key.as_str()
    }

    /// Handles one line of output. With no block open, a line `result <key>`
    /// opens one. With a block open, a line `<key> <path> <count>` closes the
    /// block and yields the output; a bare key line, or one whose fields do
    /// not read as a path and a count, is dropped and leaves the block open.
    pub fn on_line(&mut self, line: &str) -> (r: Option<CompileOutput>)
        ensures
            old(self).key().len() == 0 ==> r is None && if starts_with(line@, "result "@) {
                final(self).key() == line@.subrange("result "@.len() as int, line@.len() as int)
            } else {
                final(self).key() == old(self).key()
            },
            old(self).key().len() > 0 ==> {
                let tail = after_key(line@, old(self).key());
                let ok = starts_with(line@, old(self).key()) && line@.len() > old(self).key().len()
                    && result_payload(tail) is Some;
                if ok {
                    &&& r matches Some(out)
                    &&& out.output@ == payload_path(tail)
                    &&& out.errors as int == payload_count(tail)
                    &&& final(self).key().len() == 0
                } else {
                    r is None && final(self).key() == old(self).key()
                }
            },
    {
        let n = line.unicode_len();
        let k = self.boundary_key.as_str().unicode_len();
        if k == 0 {
            let marker = "result ";
            if has_prefix(line, marker) {
                let m = marker.unicode_len();
                self.boundary_key = line.substring_char(m, n).to_owned();
            }
            return None;
        }
        if !has_prefix(line, self.boundary_key.as_str()) || n <= k {
            return None;
        }
        let tail = line.substring_char(k, n);
        let t = tail.unicode_len();
        if tail.get_char(0) != ' ' {
            return None;
        }
        let b = find_space(tail, 1);
        if b >= t {
            return None;
        }
        let c = find_space(tail, b + 1);
        match parse_i32(tail.substring_char(b + 1, c)) {
            Some(errors) => {
                let output = tail.substring_char(1, b).to_owned();
                self.boundary_key = String::new();
                Some(CompileOutput { output, errors })
            },
            None => None,
        }
    }
}


proof fn lemma_next_space_at(s: Seq<char>, k: int, e: int)
    requires
        0 <= k <= e <= s.len(),
        forall|i: int| k <= i < e ==> s[i] != ' ',
        e == s.len() || s[e] == ' ',
    ensures
        next_space(s, k) == e,
    decreases e - k,
{
    if k < e {
        lemma_next_space_at(s, k + 1, e);
    }
}

/// A result block reads back as what the compiler wrote into it: for a
/// token with no space in it, the line `result <token>` opens a block keyed
/// by the token, and the line `<token> <path> <count>` then closes it with
/// that path and that count, whatever token the recompile chose.
pub proof fn lemma_result_block(token: Seq<char>, path: Seq<char>, count: Seq<char>)
    requires
        token.len() > 0,
        forall|i: int| 0 <= i < token.len() ==> token[i] != ' ',
        forall|i: int| 0 <= i < path.len() ==> path[i] != ' ',
        decimal_i32(count) is Some,
    ensures
        starts_with("result "@ + token, "result "@),
        ("result "@ + token).subrange("result "@.len() as int, ("result "@ + token).len() as int)
            == token,
        ({
            let line = token + " "@ + path + " "@ + count;
            let tail = after_key(line, token);
            &&& starts_with(line, token)
            &&& line.len() > token.len()
            &&& result_payload(tail) == Some((path, decimal_i32(count)->0))
        }),
{
    let open = "result "@ + token;
    assert(open.subrange(0, "result "@.len() as int) =~= "result "@);
    assert(open.subrange("result "@.len() as int, open.len() as int) =~= token);
    reveal_strlit(" ");
    let line = token + " "@ + path + " "@ + count;
    assert(line.subrange(0, token.len() as int) =~= token);
    let tail = after_key(line, token);
    assert(tail =~= " "@ + path + " "@ + count);
    let b: int = 1 + path.len() as int;
    let ds = unsigned_part(count);
    assert forall|i: int| 0 <= i < count.len() implies count[i] != ' ' by {
        if has_sign(count) {
            if i > 0 {
                assert(ds[i - 1] == count[i]);
                assert(is_digit(ds[i - 1]));
            }
        } else {
            assert(is_digit(ds[i]));
        }
    }
    assert forall|i: int| 1 <= i < b implies tail[i] != ' ' by {
        assert(tail[i] == path[i - 1]);
    }
    assert(tail[b] == ' ');
    lemma_next_space_at(tail, 1, b);
    assert forall|i: int| b + 1 <= i < tail.len() implies tail[i] != ' ' by {
        assert(tail[i] == count[i - b - 1]);
    }
    lemma_next_space_at(tail, b + 1, tail.len() as int);
    assert(tail.subrange(b + 1, tail.len() as int) =~= count);
    assert(tail.subrange(1, b) =~= path);
}

/// The views of a list of strings.
pub open spec fn string_views(v: Seq<String>) -> Seq<Seq<char>> {
    v.map_values(|s: String| s@)
}

/// One line per file, each the file's package URI.
pub open spec fn uri_lines(files: Seq<Seq<char>>, pkg: Seq<char>) -> Seq<char>
    decreases files.len(),
{
    if files.len() == 0 {
        Seq::empty()
    } else {
        uri_lines(files.drop_last(), pkg) + package_uri(files.last(), pkg) + "\n"@
    }
}

/// The command that starts the session with a full compile of `main`.
pub open spec fn compile_text(pkg: Seq<char>, main: Seq<char>) -> Seq<char> {
    "compile "@ + package_uri(main, pkg) + "\n"@
}

/// The command that recompiles `main` after `files` changed, framed by `token`.
pub open spec fn recompile_text(
    pkg: Seq<char>,
    main: Seq<char>,
    files: Seq<Seq<char>>,
    token: Seq<char>,
) -> Seq<char> {
    "recompile "@ + package_uri(main, pkg) + " "@ + token + "\n"@ + uri_lines(files, pkg) + token
        + "\n"@
}

pub open spec fn is_token_char(c: char) -> bool {
    ('0' <= c && c <= '9') || ('a' <= c && c <= 'f') || c == '-'
}

/// Relies on uuid::Uuid::new_v4 and its Display impl: a random version-4 UUID
/// written as 36 lower-case hex digits and hyphens.
#[verifier::external_body]
fn new_token() -> (r: String)
    ensures
        r@.len() == 36,
        forall|i: int| 0 <= i < r@.len() ==> is_token_char(#[trigger] r@[i]),
{
    uuid::Uuid::new_v4().to_string()
}

/// The text of a recompile request for `main` after the files in
/// `invalidated` changed, delimited by `token`.
pub fn recompile_command(pkg: &str, main: &str, invalidated: &Vec<String>, token: &str) -> (r:
    String)
    ensures
        r@ == recompile_text(pkg@, main@, string_views(invalidated@), token@),
{
    let ghost files = string_views(invalidated@);
    let mut r = String::from_str("recompile ");
    r.append(to_package_uri(main, pkg).as_str());
    r.append(" ");
    r.append(token);
    r.append("\n");
    let ghost head = r@;
    let mut i: usize = 0;
    while i < invalidated.len()
        invariant
            files == string_views(invalidated@),
            i <= invalidated.len(),
            r@ == head + uri_lines(files.subrange(0, i as int), pkg@),
        decreases invalidated.len() - i,
    {
        let line = to_package_uri(invalidated[i].as_str(), pkg);
        r.append(line.as_str());
        r.append("\n");
        proof {
            assert(files.subrange(0, i + 1).drop_last() =~= files.subrange(0, i as int));
            assert(files.subrange(0, i + 1).last() == invalidated@[i as int]@);
        }
        i = i + 1;
    }
    assert(files.subrange(0, i as int) =~= files);
    r.append(token);
    r.append("\n");
    r
}

/// Where a compiler session stands in its protocol.
#[derive(Clone, Copy, Debug, PartialEq, Eq, Structural)]
pub enum SessionState {
    Uninitialized,
    Ready,
    AwaitingDecision,
}

/// A session with the resident compiler. It produces the command text that
/// is written to the compiler's input and tracks whether the last recompile
/// still waits to be accepted or rejected.
pub struct ResidentCompiler {
    state: SessionState,
    package: String,
    token: String,
}

impl ResidentCompiler {
    pub closed spec fn state(&self) -> SessionState {
        self.state
    }

    /// The package whose files the session compiles.
    pub closed spec fn package(&self) -> Seq<char> {
        self.package@
    }

    /// The token of the last recompile request.
    pub closed spec fn token(&self) -> Seq<char> {
        self.token@
    }

    pub fn new() -> (r: ResidentCompiler)
        ensures
            r.state() == SessionState::Uninitialized,
    {
        ResidentCompiler {
            state: SessionState::Uninitialized,
            package: String::new(),
            token: String::new(),
        }
    }

    pub fn state_now(&self) -> (r: SessionState)
        ensures
            r == self.state(),
    {
        self.state
    }

    /// The command that starts the session: a full compile of `main` in
    /// `package`.
    pub fn start(&mut self, package: &str, main: &str) -> (r: String)
        ensures
            r@ == compile_text(package@, main@),
            final(self).state() == SessionState::Ready,
            final(self).package() == package@,
    {
        self.package = package.to_owned();
        self.state = SessionState::Ready;
        let mut r = String::from_str("compile ");
        r.append(to_package_uri(main, package).as_str());
        r.append("\n");
        r
    }

    /// The command that recompiles `main` after the files in `invalidated`
    /// changed, under a fresh token; the session then waits for a decision.
    pub fn recompile(&mut self, main: &str, invalidated: &Vec<String>) -> (r: String)
        requires
            old(self).state() != SessionState::Uninitialized,
        ensures
            r@ == recompile_text(
                old(self).package(),
                main@,
                string_views(invalidated@),
                final(self).token(),
            ),
            final(self).token().len() == 36,
            forall|i: int|
                0 <= i < final(self).token().len() ==> is_token_char(
                    #[trigger] final(self).token()[i],
                ),
            final(self).state() == SessionState::AwaitingDecision,
            final(self).package() == old(self).package(),
    {
        let token = new_token();
        let r = recompile_command(self.package.as_str(), main, invalidated, token.as_str());
        self.token = token;
        self.state = SessionState::AwaitingDecision;
        r
    }

    /// The command that keeps the last compile as the new baseline.
    pub fn accept(&mut self) -> (r: String)
        requires
            old(self).state() != SessionState::Uninitialized,
        ensures
            r@ == "accept\n"@,
            final(self).state() == SessionState::Ready,
            final(self).package() == old(self).package(),
            final(self).token() == old(self).token(),
    {
        self.state = SessionState::Ready;
        String::from_str("accept\n")
    }

    /// The command that rolls the last compile back.
    pub fn reject(&mut self) -> (r: String)
        requires
            old(self).state() != SessionState::Uninitialized,
        ensures
            r@ == "reject\n"@,
            final(self).state() == SessionState::Ready,
            final(self).package() == old(self).package(),
            final(self).token() == old(self).token(),
    {
        self.state = SessionState::Ready;
        String::from_str("reject\n")
    }
}

} // verus!
