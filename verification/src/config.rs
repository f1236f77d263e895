//! Validation of configuration that arrives from the command line and
//! the config file: Remote Source declarations and the OIDC section.

use vstd::prelude::*;
use crate::text::{chars_of, string_of_range, str_eq, owned, concat_str};
use crate::sources::{RemoteSourceConfig, LOCAL_SOURCE_NAME, local_name};
use crate::scale::{find_char, is_first_index};

verus! {

/// A configuration rejected during validation, with its diagnostic.
#[derive(Debug, Clone, PartialEq, Eq)]
pub struct ValidationError {
    pub message: String,
}

/// Rust's `Debug` rendering of a string: the text in double quotes,
/// with quotes, backslashes and control characters escaped.
pub uninterp spec fn debug_quoted(s: Seq<char>) -> Seq<char>;

/// Renders `s` with std's `Debug` formatting for `str` (`{:?}`).
#[verifier::external_body]
fn quoted(s: &str) -> (r: String)
    ensures
        r@ == debug_quoted(s@),
{
    format!("{s:?}")
}

/// The diagnostic for a `--source` argument without `=`.
pub open spec fn missing_equals_message(raw: Seq<char>) -> Seq<char> {
    "--source argument "@ + debug_quoted(raw) + " must be of the form name=url"@
}

/// The diagnostic for a `--source` argument with an empty side.
pub open spec fn empty_side_message(raw: Seq<char>) -> Seq<char> {
    "--source argument "@ + debug_quoted(raw) + " has empty name or url"@
}

/// The diagnostic for a Remote Source using the reserved local name.
pub open spec fn reserved_name_message(name: Seq<char>) -> Seq<char> {
    "remote source name "@ + debug_quoted(name) + " is reserved for the Local Source"@
}

/// The diagnostic for a Remote Source name declared twice.
pub open spec fn duplicate_name_message(name: Seq<char>) -> Seq<char> {
    "remote source name "@ + debug_quoted(name) + " is declared more than once"@
}

/// A `--source name=url` argument, split at its first `=`: the
/// declared (name, url), or the diagnostic.
pub open spec fn parse_source_spec(raw: Seq<char>) -> Result<(Seq<char>, Seq<char>), Seq<char>> {
    if exists|i: int| is_first_index(raw, '=', i) {
        let i = choose|i: int| is_first_index(raw, '=', i);
        let name = raw.subrange(0, i);
        let url = raw.subrange(i + 1, raw.len() as int);
        if name.len() == 0 || url.len() == 0 {
            Err(empty_side_message(raw))
        } else {
            Ok((name, url))
        }
    } else {
        Err(missing_equals_message(raw))
    }
}

/// The outcome of checking the names of the first `k` sources: the
/// first source (in order) that uses the reserved name or repeats an
/// earlier name is reported.
pub open spec fn check_names(names: Seq<Seq<char>>, k: int) -> Result<(), Seq<char>>
    decreases k,
{
    if k <= 0 {
        Ok(())
    } else {
        match check_names(names, k - 1) {
            Err(m) => Err(m),
            Ok(()) => if names[k - 1] == local_name() {
                Err(reserved_name_message(names[k - 1]))
            } else if names.take(k - 1).contains(names[k - 1]) {
                Err(duplicate_name_message(names[k - 1]))
            } else {
                Ok(())
            },
        }
    }
}

proof fn lemma_first_index_unique(s: Seq<char>, c: char, i: int, k: int)
    requires
        is_first_index(s, c, i),
        is_first_index(s, c, k),
    ensures
        i == k,
{
    if i < k {
        assert(s[i] != c);
    } else if k < i {
        assert(s[k] != c);
    }
}

fn error_with(head: &str, subject: &str, tail: &str) -> (r: ValidationError)
    ensures
        r.message@ == head@ + debug_quoted(subject@) + tail@,
{
    let q = quoted(subject);
    let m = concat_str(head, q.as_str());
    ValidationError { message: concat_str(m.as_str(), tail) }
}

/// Parse one `--source` argument of the form `name=url`, splitting at
/// the first `=` so that URLs containing `=` survive.  The declared
/// source has playback off.
pub fn parse_source_arg(raw: &str) -> (r: Result<RemoteSourceConfig, ValidationError>)
    ensures
        match parse_source_spec(raw@) {
            Ok((name, url)) => r matches Ok(c) && c@ == (name, url, false),
            Err(m) => r matches Err(e) && e.message@ == m,
        },
{
    let v = chars_of(raw);
    match find_char(&v, '=') {
        None => {
            assert(!exists|k: int| is_first_index(raw@, '=', k));
            Err(error_with("--source argument ", raw, " must be of the form name=url"))
        },
        Some(i) => {
            proof {
                let k = choose|k: int| is_first_index(raw@, '=', k);
                lemma_first_index_unique(raw@, '=', i as int, k);
            }
            if i == 0 || i + 1 == v.len() {
                Err(error_with("--source argument ", raw, " has empty name or url"))
            } else {
                let name = string_of_range(&v, 0, i);
                let url = string_of_range(&v, i + 1, v.len());
                Ok(RemoteSourceConfig { name, url, playback_enabled: false })
            }
        },
    }
}

fn name_seen(sources: &Vec<RemoteSourceConfig>, k: usize) -> (r: bool)
    requires
        k < sources.len(),
    ensures
        r == sources@.map_values(|c: RemoteSourceConfig| c.name@).take(k as int).contains(
            sources@[k as int].name@,
        ),
{
    let ghost names = sources@.map_values(|c: RemoteSourceConfig| c.name@);
    let mut j: usize = 0;
    while j < k
        invariant
            k < sources.len(),
            j <= k,
            names == sources@.map_values(|c: RemoteSourceConfig| c.name@),
            forall|m: int| 0 <= m < j ==> names[m] != sources@[k as int].name@,
        decreases k - j,
    {
        if sources[j].name == sources[k].name {
            assert(names.take(k as int)[j as int] == sources@[k as int].name@);
            return true;
        }
        j = j + 1;
    }
    proof {
        if names.take(k as int).contains(sources@[k as int].name@) {
            let m = choose|m: int| 0 <= m < k && names.take(k as int)[m] == sources@[k as int].name@;
            assert(names[m] == names.take(k as int)[m]);
        }
    }
    false
}

/// Check the names of a merged list of Remote Source declarations:
/// none may use the reserved local name, and none may repeat an
/// earlier name.  The first offender (in order) is reported.
pub fn validate_remote_sources(sources: &Vec<RemoteSourceConfig>) -> (r: Result<(), ValidationError>)
    ensures
        match check_names(sources@.map_values(|c: RemoteSourceConfig| c.name@), sources@.len() as int) {
            Ok(()) => r is Ok,
            Err(m) => r matches Err(e) && e.message@ == m,
        },
{
    let ghost names = sources@.map_values(|c: RemoteSourceConfig| c.name@);
    let mut k: usize = 0;
    while k < sources.len()
        invariant
            k <= sources.len(),
            names == sources@.map_values(|c: RemoteSourceConfig| c.name@),
            check_names(names, k as int) == Ok::<(), Seq<char>>(()),
        decreases sources.len() - k,
    {
        let s = &sources[k];
        if str_eq(s.name.as_str(), LOCAL_SOURCE_NAME) {
            let e = error_with("remote source name ", s.name.as_str(), " is reserved for the Local Source");
            proof {
                assert(check_names(names, k + 1) == Err::<(), Seq<char>>(reserved_name_message(names[k as int])));
                lemma_check_names_sticks(names, k + 1, sources@.len() as int);
            }
            return Err(e);
        }
        if name_seen(sources, k) {
            let e = error_with("remote source name ", s.name.as_str(), " is declared more than once");
            proof {
                assert(check_names(names, k + 1) == Err::<(), Seq<char>>(duplicate_name_message(names[k as int])));
                lemma_check_names_sticks(names, k + 1, sources@.len() as int);
            }
            return Err(e);
        }
        k = k + 1;
    }
    Ok(())
}

/// Once a prefix is rejected, every longer prefix is rejected with the
/// same diagnostic.
proof fn lemma_check_names_sticks(names: Seq<Seq<char>>, k: int, n: int)
    requires
        0 <= k <= n,
        check_names(names, k) is Err,
    ensures
        check_names(names, n) == check_names(names, k),
    decreases n - k,
{
    if k < n {
        lemma_check_names_sticks(names, k, n - 1);
    }
}

proof fn lemma_check_names_prefix(names: Seq<Seq<char>>, k: int)
    requires
        0 <= k <= names.len(),
    ensures
        check_names(names, k) is Ok <==> {
            &&& forall|i: int| 0 <= i < k ==> names[i] != local_name()
            &&& forall|i: int, j: int| 0 <= i < j < k ==> names[i] != names[j]
        },
        check_names(names, k) is Err ==> exists|j: int|
            #![trigger names[j]]
            {
                &&& 0 <= j < k
                &&& forall|i: int| 0 <= i < j ==> names[i] != local_name()
                &&& forall|a: int, b: int| 0 <= a < b < j ==> names[a] != names[b]
                &&& {
                    ||| names[j] == local_name() && check_names(names, k) == Err::<(), Seq<char>>(
                        reserved_name_message(names[j]),
                    )
                    ||| names[j] != local_name() && (exists|i: int| 0 <= i < j && names[i] == names[j])
                        && check_names(names, k) == Err::<(), Seq<char>>(duplicate_name_message(names[j]))
                }
            },
    decreases k,
{
    if k > 0 {
        lemma_check_names_prefix(names, k - 1);
        let last = names[k - 1];
        if names.take(k - 1).contains(last) {
            let i = choose|i: int| 0 <= i < k - 1 && #[trigger] names.take(k - 1)[i] == last;
            assert(names[i] == last);
        }
        if exists|i: int| 0 <= i < k - 1 && #[trigger] names[i] == last {
            let i = choose|i: int| 0 <= i < k - 1 && #[trigger] names[i] == last;
            assert(names.take(k - 1)[i] == last);
        }
        if check_names(names, k - 1) is Err {
            let j = choose|j: int|
                #![trigger names[j]]
                {
                    &&& 0 <= j < k - 1
                    &&& forall|i: int| 0 <= i < j ==> names[i] != local_name()
                    &&& forall|a: int, b: int| 0 <= a < b < j ==> names[a] != names[b]
                    &&& {
                        ||| names[j] == local_name() && check_names(names, k - 1) == Err::<(), Seq<char>>(
                            reserved_name_message(names[j]),
                        )
                        ||| names[j] != local_name() && (exists|i: int| 0 <= i < j && names[i] == names[j])
                            && check_names(names, k - 1) == Err::<(), Seq<char>>(duplicate_name_message(names[j]))
                    }
                };
            assert(names[j] == names[j]);
        } else if check_names(names, k) is Err {
            assert(names[k - 1] == names[k - 1]);
        }
    }
}

/// The names of Remote Source declarations are accepted exactly when no
/// name is the reserved local name and no two declarations, wherever
/// they stand in the list, share a name.  A rejection names the first
/// offending declaration: the first that is the reserved name or
/// repeats a name declared before it, reported as reserved or as
/// declared more than once accordingly.
pub proof fn lemma_remote_names_accepted_iff_distinct(names: Seq<Seq<char>>)
    ensures
        check_names(names, names.len() as int) is Ok <==> {
            &&& forall|i: int| 0 <= i < names.len() ==> names[i] != local_name()
            &&& forall|i: int, j: int| 0 <= i < j < names.len() ==> names[i] != names[j]
        },
        check_names(names, names.len() as int) is Err ==> exists|j: int|
            #![trigger names[j]]
            {
                &&& 0 <= j < names.len()
                &&& forall|i: int| 0 <= i < j ==> names[i] != local_name()
                &&& forall|a: int, b: int| 0 <= a < b < j ==> names[a] != names[b]
                &&& {
                    ||| names[j] == local_name() && check_names(names, names.len() as int) == Err::<
                        (),
                        Seq<char>,
                    >(reserved_name_message(names[j]))
                    ||| names[j] != local_name() && (exists|i: int| 0 <= i < j && names[i] == names[j])
                        && check_names(names, names.len() as int) == Err::<(), Seq<char>>(
                        duplicate_name_message(names[j]),
                    )
                }
            },
{
    lemma_check_names_prefix(names, names.len() as int);
}

/// The declarations of the first `k` `--source` arguments, or the
/// diagnostic of the first malformed one.
pub open spec fn parse_source_args_spec(
    args: Seq<Seq<char>>,
    k: int,
) -> Result<Seq<(Seq<char>, Seq<char>, bool)>, Seq<char>>
    decreases k,
{
    if k <= 0 {
        Ok(Seq::empty())
    } else {
        match parse_source_args_spec(args, k - 1) {
            Err(m) => Err(m),
            Ok(v) => match parse_source_spec(args[k - 1]) {
                Err(m) => Err(m),
                Ok((name, url)) => Ok(v.push((name, url, false))),
            },
        }
    }
}

proof fn lemma_parse_args_sticks(args: Seq<Seq<char>>, k: int, n: int)
    requires
        0 <= k <= n,
        parse_source_args_spec(args, k) is Err,
    ensures
        parse_source_args_spec(args, n) == parse_source_args_spec(args, k),
    decreases n - k,
{
    if k < n {
        lemma_parse_args_sticks(args, k, n - 1);
    }
}

/// Parse every `--source` argument in order; the first malformed one is
/// reported.
pub fn parse_source_args(args: &Vec<String>) -> (r: Result<Vec<RemoteSourceConfig>, ValidationError>)
    ensures
        match parse_source_args_spec(args@.map_values(|a: String| a@), args@.len() as int) {
            Ok(v) => r matches Ok(out) && out@.map_values(|c: RemoteSourceConfig| c@) == v,
            Err(m) => r matches Err(e) && e.message@ == m,
        },
{
    let ghost views = args@.map_values(|a: String| a@);
    let mut out: Vec<RemoteSourceConfig> = Vec::new();
    let mut k: usize = 0;
    while k < args.len()
        invariant
            k <= args@.len(),
            views == args@.map_values(|a: String| a@),
            parse_source_args_spec(views, k as int) matches Ok(v) && out@.map_values(
                |c: RemoteSourceConfig| c@,
            ) == v,
        decreases args@.len() - k,
    {
        match parse_source_arg(args[k].as_str()) {
            Err(e) => {
                proof {
                    lemma_parse_args_sticks(views, k + 1, args@.len() as int);
                }
                return Err(e);
            },
            Ok(c) => {
                out.push(c);
                proof {
                    let v = parse_source_args_spec(views, k as int)->Ok_0;
                    assert(out@.map_values(|c: RemoteSourceConfig| c@) =~= v.push(c@));
                }
            },
        }
        k = k + 1;
    }
    Ok(out)
}

/// The merged declarations: the file's entries followed by those of
/// the `--source` arguments.
pub open spec fn merged_sources(
    file: Seq<(Seq<char>, Seq<char>, bool)>,
    args: Seq<Seq<char>>,
) -> Result<Seq<(Seq<char>, Seq<char>, bool)>, Seq<char>> {
    match parse_source_args_spec(args, args.len() as int) {
        Err(m) => Err(m),
        Ok(extra) => {
            let merged = file + extra;
            match check_names(merged.map_values(|t: (Seq<char>, Seq<char>, bool)| t.0), merged.len() as int) {
                Ok(()) => Ok(merged),
                Err(m) => Err(m),
            }
        },
    }
}

/// Merge the Remote Sources of the config file with the `--source`
/// arguments (appended after the file's entries, in order) and check
/// the merged names.  A malformed argument is reported before any name
/// is checked.
pub fn resolve_remote_sources(
    file_sources: Vec<RemoteSourceConfig>,
    cli_args: &Vec<String>,
) -> (r: Result<Vec<RemoteSourceConfig>, ValidationError>)
    ensures
        match merged_sources(
            file_sources@.map_values(|c: RemoteSourceConfig| c@),
            cli_args@.map_values(|a: String| a@),
        ) {
            Ok(v) => r matches Ok(out) && out@.map_values(|c: RemoteSourceConfig| c@) == v,
            Err(m) => r matches Err(e) && e.message@ == m,
        },
{
    let ghost file_v = file_sources@.map_values(|c: RemoteSourceConfig| c@);
    let extra = match parse_source_args(cli_args) {
        Err(e) => return Err(e),
        Ok(extra) => extra,
    };
    let mut merged = file_sources;
    let mut extra = extra;
    let ghost extra_v = extra@.map_values(|c: RemoteSourceConfig| c@);
    merged.append(&mut extra);
    proof {
        assert(merged@.map_values(|c: RemoteSourceConfig| c@) =~= file_v + extra_v);
        let mv = merged@.map_values(|c: RemoteSourceConfig| c@);
        assert(mv.map_values(|t: (Seq<char>, Seq<char>, bool)| t.0) =~= merged@.map_values(
            |c: RemoteSourceConfig| c.name@,
        ));
    }
    match validate_remote_sources(&merged) {
        Ok(()) => Ok(merged),
        Err(e) => Err(e),
    }
}

} // verus!
