use vstd::prelude::*;

verus! {

/// Size of one sequential read from the source.
pub const BUFFER_SIZE: usize = 2097152;

/// Payloads larger than this go through the multipart protocol; it is also
/// the size at which a part is emitted.
pub const PART_SIZE: usize = 20971520;

/// The sequences laid end to end, first one first.
pub open spec fn concat_all<A>(s: Seq<Seq<A>>) -> Seq<A>
    decreases s.len(),
{
    if s.len() == 0 {
        Seq::empty()
    } else {
        concat_all(s.drop_last()) + s.last()
    }
}

/// Replaces every `\` with `/`.
pub open spec fn normalize_separators(s: Seq<char>) -> Seq<char> {
    s.map_values(|c: char| if c == '\\' { '/' } else { c })
}

/// Drops every leading `/`.
pub open spec fn trim_leading_separator(s: Seq<char>) -> Seq<char>
    decreases s.len(),
{
    if s.len() > 0 && s[0] == '/' {
        trim_leading_separator(s.drop_first())
    } else {
        s
    }
}

/// Where the first `k` characters are `/` and the next is not, trimming
/// leaves what follows them.
proof fn lemma_trim_from(s: Seq<char>, k: int)
    requires
        0 <= k <= s.len(),
        forall|j: int| 0 <= j < k ==> s[j] == '/',
        k == s.len() || s[k] != '/',
    ensures
        trim_leading_separator(s) == s.subrange(k, s.len() as int),
    decreases k,
{
    if k == 0 {
        assert(s.subrange(0, s.len() as int) =~= s);
    } else {
        assert(s[0] == '/');
        lemma_trim_from(s.drop_first(), k - 1);
        assert(s.drop_first().subrange(k - 1, s.len() - 1) =~= s.subrange(k, s.len() as int));
    }
}

/// The path with the root removed from its front, where the root is a prefix.
pub open spec fn strip_root(path: Seq<char>, root: Seq<char>) -> Seq<char> {
    if root.is_prefix_of(path) {
        path.subrange(root.len() as int, path.len() as int)
    } else {
        path
    }
}

/// The destination key of a file: its base name in flatten mode (no root),
/// else its path relative to the root with separators normalized to `/`;
/// in both cases without a leading separator.
pub open spec fn file_key(path: Seq<char>, file_name: Seq<char>, root: Option<Seq<char>>) -> Seq<char> {
    match root {
        Some(r) => trim_leading_separator(normalize_separators(strip_root(path, r))),
        None => trim_leading_separator(file_name),
    }
}

/// Whether `root` is a prefix of `path`.
fn has_prefix(path: &str, root: &str) -> (r: bool)
    ensures
        r == root@.is_prefix_of(path@),
{
    let path_len = path.unicode_len();
    let root_len = root.unicode_len();
    if root_len > path_len {
        return false;
    }
    let mut i: usize = 0;
    while i < root_len
        invariant
            root_len == root@.len(),
            path_len == path@.len(),
            root@.len() <= path@.len(),
            i <= root@.len(),
            forall|j: int| 0 <= j < i ==> root@[j] == path@[j],
        decreases root@.len() - i,
    {
        if root.get_char(i) != path.get_char(i) {
            return false;
        }
        i = i + 1;
    }
    true
}

/// The index of the first character at or after `from` that is not a
/// separator (`/`, or `\` when `backslash` is set), or the length.
fn skip_separators(s: &str, from: usize, backslash: bool) -> (k: usize)
    requires
        from <= s@.len(),
    ensures
        from <= k <= s@.len(),
        forall|j: int| from <= j < k ==> s@[j] == '/' || (backslash && s@[j] == '\\'),
        k == s@.len() || (s@[k as int] != '/' && !(backslash && s@[k as int] == '\\')),
{
    let len = s.unicode_len();
    let mut k: usize = from;
    while k < len
        invariant
            len == s@.len(),
            from <= k <= len,
            forall|j: int| from <= j < k ==> s@[j] == '/' || (backslash && s@[j] == '\\'),
        decreases len - k,
    {
        let c = s.get_char(k);
        if c != '/' && !(backslash && c == '\\') {
            return k;
        }
        k = k + 1;
    }
    k
}

/// Appends the characters of `s` from `from` to `to`, with every `\` as `/`.
fn append_normalized(out: &mut String, s: &str, from: usize, to: usize)
    requires
        from <= to <= s@.len(),
    ensures
        final(out)@ == old(out)@ + normalize_separators(s@.subrange(from as int, to as int)),
{
    let ghost init = out@;
    let mut run: usize = from;
    let mut j: usize = from;
    while j < to
        invariant
            from <= run <= j <= to,
            to <= s@.len(),
            forall|k: int| run <= k < j ==> s@[k] != '\\',
            out@ + s@.subrange(run as int, j as int) == init + normalize_separators(
                s@.subrange(from as int, j as int),
            ),
        decreases to - j,
    {
        let c = s.get_char(j);
        let ghost before = out@;
        assert(s@.subrange(from as int, j + 1) =~= s@.subrange(from as int, j as int).push(c));
        if c == '\\' {
            out.append(s.substring_char(run, j));
            out.append("/");
            proof {
                reveal_strlit("/");
            }
            assert(out@ + s@.subrange(j + 1, j + 1) =~= init + normalize_separators(
                s@.subrange(from as int, j + 1),
            ));
            run = j + 1;
        } else {
            assert(s@.subrange(run as int, j + 1) =~= s@.subrange(run as int, j as int).push(c));
            assert(normalize_separators(s@.subrange(from as int, j + 1)) =~= normalize_separators(
                s@.subrange(from as int, j as int),
            ).push(c));
            assert(out@ + s@.subrange(run as int, j + 1) =~= (out@ + s@.subrange(
                run as int,
                j as int,
            )).push(c));
            assert(out@ + s@.subrange(run as int, j + 1) =~= init + normalize_separators(
                s@.subrange(from as int, j + 1),
            ));
        }
        j = j + 1;
    }
    out.append(s.substring_char(run, to));
}

/// Computes the destination key of a file found under a traversal root.
///
/// `path` is the file's full path and `file_name` its base name. With
/// `root_directory` set, the key is the path with that root stripped from its
/// front, `\` turned into `/`, and every leading `/` removed; with it unset
/// (flatten mode) the key is the base name.
pub fn get_file_key(path: &str, file_name: &str, root_directory: Option<&str>) -> (key: String)
    ensures
        key@ == file_key(path@, file_name@, match root_directory {
            Some(r) => Some(r@),
            None => None,
        }),
{
    match root_directory {
        Some(root) => {
            let start: usize = if has_prefix(path, root) { root.unicode_len() } else { 0 };
            let ghost stripped = path@.subrange(start as int, path@.len() as int);
            assert(stripped =~= strip_root(path@, root@));
            let k = skip_separators(path, start, true);
            let mut key = String::new();
            append_normalized(&mut key, path, k, path.unicode_len());
            proof {
                let n = normalize_separators(stripped);
                lemma_trim_from(n, k - start);
                assert(n.subrange(k - start, n.len() as int) =~= normalize_separators(
                    path@.subrange(k as int, path@.len() as int),
                ));
                assert(key@ =~= trim_leading_separator(n));
            }
            key
        },
        None => {
            let k = skip_separators(file_name, 0, false);
            let mut key = String::new();
            key.append(file_name.substring_char(k, file_name.unicode_len()));
            proof {
                lemma_trim_from(file_name@, k as int);
            }
            assert(key@ =~= trim_leading_separator(file_name@));
            key
        },
    }
}

/// Default number of objects copied or uploaded at once.
pub const DEFAULT_TRANSFER_CONCURRENCY: usize = 50;

/// Default number of objects deleted at once.
pub const DEFAULT_DELETE_CONCURRENCY: usize = 10;

/// Number of parts of one object uploaded at once.
pub const PART_UPLOAD_CONCURRENCY: usize = 100;

/// The endpoint used for a region when none is given.
pub open spec fn default_endpoint(region: Seq<char>) -> Seq<char> {
    "s3."@ + region + ".amazonaws.com"@
}

/// The endpoint to reach: the one given, else the region's default.
pub fn resolve_endpoint(endpoint: &Option<String>, region: &str) -> (r: String)
    ensures
        r@ == match endpoint {
            Some(e) => e@,
            None => default_endpoint(region@),
        },
{
    match endpoint {
        Some(e) => e.clone(),
        None => {
            let mut r = String::from_str("s3.");
            r.append(region);
            r.append(".amazonaws.com");
            proof {
                reveal_strlit("s3.");
                reveal_strlit(".amazonaws.com");
            }
            r
        },
    }
}

/// The concurrency ceiling: the one requested, else the default; a request
/// of 0 also takes the default, as a ceiling must admit one task.
pub fn concurrency_limit(requested: Option<usize>, default: usize) -> (r: usize)
    requires
        default > 0,
    ensures
        r > 0,
        r == match requested {
            Some(n) => if n > 0 {
                n
            } else {
                default
            },
            None => default,
        },
{
    match requested {
        Some(n) => if n > 0 {
            n
        } else {
            default
        },
        None => default,
    }
}

/// Whether a payload of `size` bytes goes through the multipart protocol:
/// only when it is strictly larger than the part size.
pub fn is_multipart(size: u64) -> (r: bool)
    ensures
        r == (size > PART_SIZE),
{
    size > PART_SIZE as u64
}

} // verus!
