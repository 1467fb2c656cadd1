//! Classification of plugin file extensions, the ghost-suffix codec, the
//! filename normaliser, and the path resolver.
//!
//! A path is modelled as a sequence of characters: its file name is the text
//! after the last `/`, and its extension is the text after the last dot of
//! the file name, if the file name has a dot at all.

use vstd::prelude::*;

use crate::game::GameType;
use crate::state::State;
use crate::strings::find_last;
use crate::strings::last_index_of;
use crate::strings::lemma_last_index_of_props;
use crate::strings::lemma_last_index_of_suffix;
use crate::strings::lemma_last_index_of_unique;
use crate::strings::str_eq;

verus! {

/// The characters of the `esp` plugin extension.
pub open spec fn esp_ext() -> Seq<char> {
    seq!['e', 's', 'p']
}

/// The characters of the `esm` plugin extension.
pub open spec fn esm_ext() -> Seq<char> {
    seq!['e', 's', 'm']
}

/// The characters of the `esl` light-plugin extension.
pub open spec fn esl_ext() -> Seq<char> {
    seq!['e', 's', 'l']
}

/// The characters of the `ghost` extension.
pub open spec fn ghost_ext() -> Seq<char> {
    seq!['g', 'h', 'o', 's', 't']
}

/// The characters of the `.ghost` suffix, dot included.
pub open spec fn dot_ghost_ext() -> Seq<char> {
    seq!['.', 'g', 'h', 'o', 's', 't']
}

/// The file name of a path: the text after its last `/`, or the whole path
/// when it has no `/`.
pub open spec fn file_name_of(p: Seq<char>) -> Seq<char> {
    p.subrange(last_index_of(p, '/') + 1, p.len() as int)
}

/// The extension of a path: the text after the last dot of its file name,
/// or nothing when the file name has no dot.
pub open spec fn spec_extension(p: Seq<char>) -> Option<Seq<char>> {
    let f = file_name_of(p);
    let d = last_index_of(f, '.');
    if d >= 0 {
        Some(f.subrange(d + 1, f.len() as int))
    } else {
        None
    }
}

/// Whether `ext` names a plugin file extension for `game`: `esp` and `esm`
/// always do, `esl` only when the game supports light plugins.
pub open spec fn spec_is_plugin_extension(game: GameType, ext: Seq<char>) -> bool {
    ||| ext == esp_ext()
    ||| ext == esm_ext()
    ||| (ext == esl_ext() && game.spec_supports_light_plugins())
}

/// Whether the path has an extension and it is a plugin extension for
/// `game`; the ghost suffix is not given any special treatment.
pub open spec fn spec_has_unghosted_plugin_extension(game: GameType, p: Seq<char>) -> bool {
    match spec_extension(p) {
        Some(e) => spec_is_plugin_extension(game, e),
        None => false,
    }
}

/// Whether the path names a plugin file for `game`, ghosted or not: a path
/// whose extension is the ghost suffix is classified by the name under that
/// suffix, any other path by its own extension.
pub open spec fn spec_has_plugin_extension(game: GameType, p: Seq<char>) -> bool {
    match spec_extension(p) {
        Some(e) => {
            if e == ghost_ext() {
                spec_has_unghosted_plugin_extension(game, p.subrange(0, p.len() - 6))
            } else {
                spec_is_plugin_extension(game, e)
            }
        },
        None => false,
    }
}

/// The index of the dot that starts the extension of `path`, or `None` when
/// `path` has no extension.
fn last_dot_of_file_name(path: &str) -> (r: Option<usize>)
    ensures
        match r {
            Some(d) => d < path@.len() && spec_extension(path@) == Some(
                path@.subrange(d + 1, path@.len() as int),
            ),
            None => spec_extension(path@) is None,
        },
{
    proof {
        lemma_last_index_of_props(path@, '.');
        lemma_last_index_of_props(path@, '/');
        lemma_last_index_of_suffix(path@, '.', last_index_of(path@, '/') + 1);
    }
    let dot = find_last(path, '.');
    match dot {
        None => None,
        Some(d) => {
            let sep = find_last(path, '/');
            match sep {
                Some(s) => {
                    if d < s {
                        None
                    } else {
                        proof {
                            lemma_extension_from_last_dot(path@, d as int);
                        }
                        Some(d)
                    }
                },
                None => {
                    proof {
                        lemma_extension_from_last_dot(path@, d as int);
                    }
                    Some(d)
                },
            }
        },
    }
}

/// When the last dot of `p` lies after its last `/`, the extension of `p`
/// is everything after that dot.
proof fn lemma_extension_from_last_dot(p: Seq<char>, d: int)
    requires
        d == last_index_of(p, '.'),
        d >= 0,
        d > last_index_of(p, '/'),
    ensures
        spec_extension(p) == Some(p.subrange(d + 1, p.len() as int)),
{
    lemma_last_index_of_props(p, '.');
    lemma_last_index_of_props(p, '/');
    let s = last_index_of(p, '/');
    lemma_last_index_of_suffix(p, '.', s + 1);
    let f = file_name_of(p);
    assert(last_index_of(f, '.') == d - s - 1);
    assert(f.subrange(d - s, f.len() as int) =~= p.subrange(d + 1, p.len() as int));
}

/// Whether `extension` is, by itself, a plugin file extension for
/// `game_type`: `esp` or `esm` for every game, `esl` only for games that
/// support light plugins. Any other text is not a plugin extension.
pub fn is_unghosted_plugin_file_extension(game_type: GameType, extension: &str) -> (r: bool)
    ensures
        r == spec_is_plugin_extension(game_type, extension@),
{
    proof {
        reveal_strlit("esp");
        reveal_strlit("esm");
        reveal_strlit("esl");
        assert("esp"@ =~= esp_ext());
        assert("esm"@ =~= esm_ext());
        assert("esl"@ =~= esl_ext());
    }
    if str_eq(extension, "esp") {
        true
    } else if str_eq(extension, "esm") {
        true
    } else if str_eq(extension, "esl") {
        game_type.supports_light_plugins()
    } else {
        false
    }
}

/// Whether `path` has an extension and it is a plugin extension for
/// `game_type`; a trailing ghost suffix is not stripped first, so a ghosted
/// plugin classifies as false here.
pub fn has_unghosted_plugin_file_extension(game_type: GameType, path: &str) -> (r: bool)
    ensures
        r == spec_has_unghosted_plugin_extension(game_type, path@),
{
    match last_dot_of_file_name(path) {
        Some(d) => {
            let n = path.unicode_len();
            let ext = path.substring_char(d + 1, n);
            is_unghosted_plugin_file_extension(game_type, ext)
        },
        None => false,
    }
}

/// Whether `path` names a plugin file for `game_type`, ghosted or not: a
/// path whose extension is the ghost suffix is classified by the name under
/// that suffix, any other path by its own extension.
pub fn has_plugin_file_extension(game_type: GameType, path: &str) -> (r: bool)
    ensures
        r == spec_has_plugin_extension(game_type, path@),
{
    match last_dot_of_file_name(path) {
        Some(d) => {
            let n = path.unicode_len();
            let ext = path.substring_char(d + 1, n);
            proof {
                reveal_strlit("ghost");
                assert("ghost"@ =~= ghost_ext());
            }
            if str_eq(ext, "ghost") {
                let stem = path.substring_char(0, d);
                has_unghosted_plugin_file_extension(game_type, stem)
            } else {
                is_unghosted_plugin_file_extension(game_type, ext)
            }
        },
        None => false,
    }
}

/// The ghosted form of a path: the same path with `.ghost` appended. When
/// the path already has an extension the result reads `name.ext.ghost`;
/// when it has none, plain `name.ghost`.
pub fn add_ghost_extension(path: &str) -> (r: String)
    ensures
        r@ == path@ + dot_ghost_ext(),
{
    proof {
        reveal_strlit(".ghost");
        assert(".ghost"@ =~= dot_ghost_ext());
    }
    let mut r = String::from_str(path);
    r.append(".ghost");
    r
}

/// The normalised form of a bare file name: `name` with one trailing
/// `.ghost` suffix removed, when removing it leaves a name with an
/// unghosted plugin extension for `game`; otherwise `name` unchanged.
pub open spec fn spec_normalise_file_name(game: GameType, name: Seq<char>) -> Seq<char> {
    if name.len() >= 6 && name.subrange(name.len() - 6, name.len() as int) == dot_ghost_ext()
        && spec_has_unghosted_plugin_extension(game, name.subrange(0, name.len() - 6)) {
        name.subrange(0, name.len() - 6)
    } else {
        name
    }
}

/// Strips a trailing ghost suffix from `name` when doing so leaves a valid
/// unghosted plugin filename for `game_type`; otherwise returns `name`
/// unchanged. The result is always `name` itself or a leading slice of it.
pub fn normalise_file_name<'a>(game_type: GameType, name: &'a str) -> (r: &'a str)
    ensures
        r@ == spec_normalise_file_name(game_type, name@),
{
    proof {
        reveal_strlit(".ghost");
        assert(".ghost"@ =~= dot_ghost_ext());
    }
    let n = name.unicode_len();
    if n >= 6 {
        let tail = name.substring_char(n - 6, n);
        if str_eq(tail, ".ghost") {
            let stem = name.substring_char(0, n - 6);
            if has_unghosted_plugin_file_extension(game_type, stem) {
                return stem;
            }
        }
    }
    name
}

/// The characters of the reserved sentinel name.
pub open spec fn loot_sentinel() -> Seq<char> {
    seq!['L', 'O', 'O', 'T']
}

/// A path joined onto a base directory: the path itself when it is
/// absolute or the base is empty, otherwise the base and the path with a
/// single `/` between them.
pub open spec fn spec_join_paths(base: Seq<char>, p: Seq<char>) -> Seq<char> {
    if p.len() > 0 && p[0] == '/' {
        p
    } else if base.len() == 0 {
        p
    } else if base[base.len() - 1] == '/' {
        base + p
    } else {
        base + seq!['/'] + p
    }
}

/// Joins `path` onto the directory `base`.
pub fn join_paths(base: &str, path: &str) -> (r: String)
    ensures
        r@ == spec_join_paths(base@, path@),
{
    proof {
        reveal_strlit("/");
    }
    let pn = path.unicode_len();
    if pn > 0 && path.get_char(0) == '/' {
        return String::from_str(path);
    }
    let bn = base.unicode_len();
    if bn == 0 {
        return String::from_str(path);
    }
    let mut r = String::from_str(base);
    if base.get_char(bn - 1) != '/' {
        r.append("/");
        proof {
            assert(r@ =~= base@ + seq!['/']);
        }
    }
    r.append(path);
    proof {
        if base@[bn - 1] != '/' {
            assert(r@ =~= base@ + seq!['/'] + path@);
        }
    }
    r
}

/// What resolution makes of the joined candidate path, given whether that
/// candidate exists on disk: the candidate itself when it exists or is not
/// plugin-shaped, its ghosted form otherwise.
pub open spec fn spec_resolve_candidate(
    game: GameType,
    candidate: Seq<char>,
    exists_on_disk: bool,
) -> Seq<char> {
    if !exists_on_disk && spec_has_unghosted_plugin_extension(game, candidate) {
        candidate + dot_ghost_ext()
    } else {
        candidate
    }
}

/// The resolved path for `p` under a context with game `game`, data root
/// `data` and tool path `loot`, given whether the joined candidate exists
/// on disk: the tool path for the sentinel name, otherwise the candidate
/// or its ghosted form.
pub open spec fn spec_resolve_path(
    game: GameType,
    data: Seq<char>,
    loot: Seq<char>,
    p: Seq<char>,
    exists_on_disk: bool,
) -> Seq<char> {
    if p == loot_sentinel() {
        loot
    } else {
        spec_resolve_candidate(game, spec_join_paths(data, p), exists_on_disk)
    }
}

/// Finishes a resolution whose existence probe already ran: keeps
/// `candidate` when it exists on disk or is not plugin-shaped, and returns
/// its ghosted form when an absent candidate has an unghosted plugin
/// extension.
pub fn resolve_candidate(game_type: GameType, candidate: String, exists_on_disk: bool) -> (r:
    String)
    ensures
        r@ == spec_resolve_candidate(game_type, candidate@, exists_on_disk),
{
    if !exists_on_disk && has_unghosted_plugin_file_extension(game_type, candidate.as_str()) {
        add_ghost_extension(candidate.as_str())
    } else {
        candidate
    }
}

/// Resolution with the existence probe's outcome supplied by the caller:
/// the sentinel name resolves to the context's tool path, any other path is
/// joined onto the data root and then kept or ghosted as
/// `spec_resolve_candidate` says.
pub fn resolve_path_with_existence(state: &State, path: &str, exists_on_disk: bool) -> (r: String)
    ensures
        r@ == spec_resolve_path(
            state.game_type,
            state.data_path@,
            state.loot_path@,
            path@,
            exists_on_disk,
        ),
{
    proof {
        reveal_strlit("LOOT");
        assert("LOOT"@ =~= loot_sentinel());
    }
    if str_eq(path, "LOOT") {
        return state.loot_path.clone();
    }
    let candidate = join_paths(state.data_path.as_str(), path);
    resolve_candidate(state.game_type, candidate, exists_on_disk)
}

/// Relies on std::path::Path::exists for the library's single filesystem
/// probe. Nothing is assumed of the result: it depends on what is on disk
/// at the moment of the call.
#[verifier::external_body]
fn probe_exists(path: &str) -> bool {
    std::path::Path::new(path).exists()
}

/// Resolves `path` against the context: the sentinel name `LOOT` yields
/// the context's tool path; any other path is joined onto the data root,
/// kept when it exists on disk or is not plugin-shaped, and returned in
/// ghosted form when an absent candidate has an unghosted plugin extension
/// for the context's game. Exactly one existence probe runs per call, so
/// the result is the resolution for one of the two probe outcomes; which
/// one is the filesystem's transient answer.
pub fn resolve_path(state: &State, path: &str) -> (r: String)
    ensures
        r@ == spec_resolve_path(
            state.game_type,
            state.data_path@,
            state.loot_path@,
            path@,
            true,
        ) || r@ == spec_resolve_path(
            state.game_type,
            state.data_path@,
            state.loot_path@,
            path@,
            false,
        ),
        path@ == loot_sentinel() ==> r@ == state.loot_path@,
        path@ != loot_sentinel() && !spec_has_unghosted_plugin_extension(
            state.game_type,
            spec_join_paths(state.data_path@, path@),
        ) ==> r@ == spec_join_paths(state.data_path@, path@),
{
    proof {
        reveal_strlit("LOOT");
        assert("LOOT"@ =~= loot_sentinel());
    }
    if str_eq(path, "LOOT") {
        return state.loot_path.clone();
    }
    let candidate = join_paths(state.data_path.as_str(), path);
    let exists_on_disk = probe_exists(candidate.as_str());
    resolve_candidate(state.game_type, candidate, exists_on_disk)
}

/// Law: `esp` and `esm` are plugin extensions for every supported game.
pub proof fn lemma_esp_esm_are_plugin_extensions(game: GameType)
    ensures
        spec_is_plugin_extension(game, esp_ext()),
        spec_is_plugin_extension(game, esm_ext()),
{
}

/// Law: `esl` is a plugin extension exactly for the games that support
/// light plugins.
pub proof fn lemma_esl_iff_light_plugins(game: GameType)
    ensures
        spec_is_plugin_extension(game, esl_ext()) <==> game.spec_supports_light_plugins(),
{
    assert(esl_ext()[2] != esp_ext()[2]);
    assert(esl_ext()[2] != esm_ext()[2]);
}

/// Law: `ghost` and `txt` are plugin extensions for no game.
pub proof fn lemma_ghost_txt_are_not_plugin_extensions(game: GameType)
    ensures
        !spec_is_plugin_extension(game, ghost_ext()),
        !spec_is_plugin_extension(game, seq!['t', 'x', 't']),
{
    assert(ghost_ext().len() != esp_ext().len());
    assert(seq!['t', 'x', 't'][0] != esp_ext()[0]);
    assert(seq!['t', 'x', 't'][0] != esm_ext()[0]);
    assert(seq!['t', 'x', 't'][0] != esl_ext()[0]);
}

/// Law: on a path whose extension is not the ghost suffix, the ghost-aware
/// classifier agrees with the unghosted one; on a path whose extension is
/// the ghost suffix — which then always reads `.ghost` at the very end —
/// it strips exactly that one layer and classifies what is underneath.
pub proof fn lemma_has_plugin_vs_unghosted(game: GameType, p: Seq<char>)
    ensures
        spec_extension(p) != Some(ghost_ext()) ==> spec_has_plugin_extension(game, p)
            == spec_has_unghosted_plugin_extension(game, p),
        spec_extension(p) == Some(ghost_ext()) ==> p.len() >= 6 && p.subrange(
            p.len() - 6,
            p.len() as int,
        ) == dot_ghost_ext() && spec_has_plugin_extension(game, p)
            == spec_has_unghosted_plugin_extension(game, p.subrange(0, p.len() - 6)),
{
    lemma_last_index_of_props(p, '/');
    let s = last_index_of(p, '/');
    let f = file_name_of(p);
    lemma_last_index_of_props(f, '.');
    let d = last_index_of(f, '.');
    if spec_extension(p) == Some(ghost_ext()) {
        assert(f.subrange(d + 1, f.len() as int) == ghost_ext());
        assert(f.len() == d + 6);
        assert(p.len() == s + 1 + f.len());
        assert(p[p.len() - 6] == f[d]);
        assert forall|i: int| 0 <= i < 5 implies p[p.len() - 5 + i] == ghost_ext()[i] by {
            assert(p[p.len() - 5 + i] == f[d + 1 + i]);
            assert(f.subrange(d + 1, f.len() as int)[i] == f[d + 1 + i]);
        }
        assert(p.subrange(p.len() - 6, p.len() as int) =~= dot_ghost_ext());
    }
}

/// Law: ghosting is reversed by stripping its suffix — the leading slice of
/// `add_ghost_extension`'s result is the original path again — and the
/// ghosted path always carries the ghost extension.
pub proof fn lemma_add_ghost_extension_reversible(p: Seq<char>)
    ensures
        (p + dot_ghost_ext()).subrange(0, p.len() as int) == p,
        spec_extension(p + dot_ghost_ext()) == Some(ghost_ext()),
{
    let q = p + dot_ghost_ext();
    assert(q.subrange(0, p.len() as int) =~= p);
    lemma_last_index_of_props(q, '/');
    let s = last_index_of(q, '/');
    assert(q[p.len() as int] == '.');
    assert forall|j: int| p.len() < j < q.len() implies q[j] != '.' && q[j] != '/' by {
        assert(q[j] == dot_ghost_ext()[j - p.len()]);
    }
    assert(s < p.len()) by {
        if s >= p.len() {
            assert(q[s] == dot_ghost_ext()[s - p.len()]);
        }
    }
    let f = file_name_of(q);
    lemma_last_index_of_suffix(q, '.', s + 1);
    lemma_last_index_of_unique(q, '.', p.len() as int);
    assert(last_index_of(f, '.') == p.len() - s - 1);
    assert(f.subrange(p.len() - s, f.len() as int) =~= ghost_ext());
}

} // verus!
