//! Where LoRA adapters may be loaded from at run time.
//!
//! Paths are those of a POSIX system, given by their bytes.

use crate::lists::copied;
use crate::status::{internal, invalid_argument, Code, Status, StatusView};
use crate::text::same_bytes;
use vstd::prelude::*;
use vstd::utf8::{decode_utf8, encode_utf8, valid_utf8};

verus! {

/// Why an adapter may not be loaded from a path.
#[derive(Debug, PartialEq, Eq)]
pub enum LoraPathError {
    LocalPathsDisabled,
    RelativeLocalPath,
    PathUnavailable,
    AllowedPrefixUnavailable(Vec<u8>),
    OutsideAllowedPrefixes,
}

/// The text that `String::from_utf8_lossy` makes of bytes.
pub uninterp spec fn utf8_lossy(bytes: Seq<u8>) -> Seq<char>;

/// Calls `String::from_utf8_lossy`: the text is a function of the bytes alone, and that which
/// they encode where they are valid UTF-8.
#[verifier::external_body]
fn lossy_text(bytes: &[u8]) -> (text: String)
    ensures
        text@ == utf8_lossy(bytes@),
        valid_utf8(bytes@) ==> text@ == decode_utf8(bytes@),
{
    String::from_utf8_lossy(bytes).into_owned()
}

pub open spec fn wanted_public_message(error: LoraPathError) -> Seq<char> {
    match error {
        LoraPathError::LocalPathsDisabled => "Local LoRA adapter paths require VLLM_RUNTIME_LORA_ALLOWED_PATH_PREFIXES to be configured."@,
        LoraPathError::RelativeLocalPath => "Local LoRA adapter paths must be absolute and under one of the prefixes configured by VLLM_RUNTIME_LORA_ALLOWED_PATH_PREFIXES."@,
        LoraPathError::PathUnavailable => "Local LoRA adapter path must exist and be accessible."@,
        LoraPathError::AllowedPrefixUnavailable(_) => "Runtime LoRA path policy is unavailable; check the server configuration."@,
        LoraPathError::OutsideAllowedPrefixes => "Local LoRA adapter path is outside the configured allowed prefixes."@,
    }
}

/// What the server's own log is told.
pub open spec fn wanted_log_message(error: LoraPathError) -> Seq<char> {
    match error {
        LoraPathError::AllowedPrefixUnavailable(prefix) => "configured VLLM_RUNTIME_LORA_ALLOWED_PATH_PREFIXES path prefix `"@
            + utf8_lossy(prefix@) + "` must exist and be accessible"@,
        _ => wanted_public_message(error),
    }
}

/// The status that a caller is answered with.
pub open spec fn wanted_path_status(error: LoraPathError) -> StatusView {
    if error is AllowedPrefixUnavailable {
        internal(wanted_public_message(error))
    } else {
        invalid_argument(wanted_public_message(error))
    }
}

impl LoraPathError {
    /// Whether the caller is at fault. A prefix that is configured but missing is the server's.
    pub fn is_client_error(&self) -> (client: bool)
        ensures
            client == !(self is AllowedPrefixUnavailable),
    {
        match self {
            LoraPathError::AllowedPrefixUnavailable(_) => false,
            _ => true,
        }
    }

    /// What a caller is told. It never holds a path of the server's configuration.
    pub fn public_message(&self) -> (message: &'static str)
        ensures
            message@ == wanted_public_message(*self),
    {
        match self {
            LoraPathError::LocalPathsDisabled => "Local LoRA adapter paths require VLLM_RUNTIME_LORA_ALLOWED_PATH_PREFIXES to be configured.",
            LoraPathError::RelativeLocalPath => "Local LoRA adapter paths must be absolute and under one of the prefixes configured by VLLM_RUNTIME_LORA_ALLOWED_PATH_PREFIXES.",
            LoraPathError::PathUnavailable => "Local LoRA adapter path must exist and be accessible.",
            LoraPathError::AllowedPrefixUnavailable(_) => "Runtime LoRA path policy is unavailable; check the server configuration.",
            LoraPathError::OutsideAllowedPrefixes => "Local LoRA adapter path is outside the configured allowed prefixes.",
        }
    }

    /// What the server's own log is told.
    pub fn log_message(&self) -> (message: String)
        ensures
            message@ == wanted_log_message(*self),
    {
        match self {
            LoraPathError::AllowedPrefixUnavailable(prefix) => {
                "configured VLLM_RUNTIME_LORA_ALLOWED_PATH_PREFIXES path prefix `".to_string().concat(
                    lossy_text(prefix.as_slice()).as_str(),
                ).concat("` must exist and be accessible")
            },
            _ => self.public_message().to_string(),
        }
    }

    /// The status that a caller is answered with.
    pub fn status(&self) -> (status: Status)
        ensures
            status@ == wanted_path_status(*self),
    {
        if self.is_client_error() {
            Status::invalid_argument(self.public_message())
        } else {
            Status::internal(self.public_message())
        }
    }
}

/// What a caller is told of a missing prefix does not depend on the prefix.
pub proof fn public_message_hides_the_prefix(prefix: Vec<u8>, other: Vec<u8>)
    ensures
        wanted_public_message(LoraPathError::AllowedPrefixUnavailable(prefix))
            == wanted_public_message(LoraPathError::AllowedPrefixUnavailable(other)),
        wanted_path_status(LoraPathError::AllowedPrefixUnavailable(prefix)) == wanted_path_status(
            LoraPathError::AllowedPrefixUnavailable(other),
        ),
{
}

/// `bytes` cut at each `separator`.
pub open spec fn pieces(bytes: Seq<u8>, separator: u8) -> Seq<Seq<u8>>
    decreases bytes.len(),
{
    if bytes.len() == 0 {
        seq![Seq::empty()]
    } else {
        let before = pieces(bytes.drop_last(), separator);
        if bytes.last() == separator {
            before.push(Seq::empty())
        } else {
            before.drop_last().push(before.last().push(bytes.last()))
        }
    }
}

pub open spec fn piece_views(pieces: Seq<Vec<u8>>) -> Seq<Seq<u8>> {
    Seq::new(pieces.len(), |i: int| pieces[i]@)
}

fn split_bytes(bytes: &[u8], separator: u8) -> (split: Vec<Vec<u8>>)
    ensures
        piece_views(split@) == pieces(bytes@, separator),
{
    let mut split: Vec<Vec<u8>> = Vec::new();
    let mut current: Vec<u8> = Vec::new();
    assert(bytes@.take(0) =~= Seq::empty());
    assert(piece_views(split@).push(current@) =~= pieces(bytes@.take(0), separator));
    for i in 0..bytes.len()
        invariant
            piece_views(split@).push(current@) == pieces(bytes@.take(i as int), separator),
    {
        let ghost before = piece_views(split@);
        let ghost piece = current@;
        assert(bytes@.take(i + 1).drop_last() =~= bytes@.take(i as int));
        assert(bytes@.take(i + 1).last() == bytes@[i as int]);
        assert(before.push(piece).last() == piece);
        assert(before.push(piece).drop_last() =~= before);
        if bytes[i] == separator {
            split.push(current);
            current = Vec::new();
            assert(piece_views(split@) =~= before.push(piece));
            assert(current@ =~= Seq::empty());
        } else {
            current.push(bytes[i]);
        }
    }
    assert(bytes@.take(bytes@.len() as int) =~= bytes@);
    let ghost before = piece_views(split@);
    let ghost piece = current@;
    split.push(current);
    assert(piece_views(split@) =~= before.push(piece));
    split
}

/// The pieces that are not empty, in order.
pub open spec fn nonempty(pieces: Seq<Seq<u8>>) -> Seq<Seq<u8>>
    decreases pieces.len(),
{
    if pieces.len() == 0 {
        Seq::empty()
    } else {
        let before = nonempty(pieces.drop_last());
        if pieces.last().len() > 0 {
            before.push(pieces.last())
        } else {
            before
        }
    }
}

/// The prefixes in a list that colons separate, where there are any.
pub fn allowed_prefixes(list: &[u8]) -> (prefixes: Option<Vec<Vec<u8>>>)
    ensures
        match prefixes {
            Some(prefixes) => prefixes@.len() > 0 && piece_views(prefixes@) == nonempty(
                pieces(list@, 0x3a),
            ),
            None => nonempty(pieces(list@, 0x3a)).len() == 0,
        },
{
    let split = split_bytes(list, 0x3a);
    let ghost all = piece_views(split@);
    let mut prefixes: Vec<Vec<u8>> = Vec::new();
    assert(all.take(0) =~= Seq::empty());
    assert(piece_views(prefixes@) =~= nonempty(all.take(0)));
    for i in 0..split.len()
        invariant
            all == piece_views(split@),
            piece_views(prefixes@) == nonempty(all.take(i as int)),
    {
        let ghost before = piece_views(prefixes@);
        assert(all.take(i + 1).drop_last() =~= all.take(i as int));
        assert(all.take(i + 1).last() == split@[i as int]@);
        if split[i].len() > 0 {
            prefixes.push(copied(split[i].as_slice()));
            assert(piece_views(prefixes@) =~= before.push(split@[i as int]@));
        }
    }
    assert(all.take(all.len() as int) =~= all);
    assert(piece_views(prefixes@).len() == prefixes@.len());
    if prefixes.len() == 0 {
        None
    } else {
        Some(prefixes)
    }
}

pub open spec fn absolute(path: Seq<u8>) -> bool {
    path.len() > 0 && path[0] == 0x2f
}

pub open spec fn current_dir() -> Seq<u8> {
    seq![0x2eu8]
}

pub open spec fn parent_dir() -> Seq<u8> {
    seq![0x2eu8, 0x2eu8]
}

/// Whether a path holds a step to a parent directory.
pub open spec fn has_parent_step(path: Seq<u8>) -> bool {
    pieces(path, 0x2f).contains(parent_dir())
}

/// Whether a path is meant to be one of the file system, whether or not it exists.
pub open spec fn looks_local(path: Seq<u8>) -> bool {
    absolute(path) || (path.len() > 0 && (path[0] == 0x7e || path[0] == 0x2e)) || has_parent_step(
        path,
    )
}

fn is_absolute(path: &[u8]) -> (is: bool)
    ensures
        is == absolute(path@),
{
    path.len() > 0 && path[0] == 0x2f
}

pub fn looks_like_local_lora_path(lora_path: &str) -> (local: bool)
    ensures
        local == looks_local(encode_utf8(lora_path@)),
{
    let path = lora_path.as_bytes();
    if is_absolute(path) || (path.len() > 0 && (path[0] == 0x7e || path[0] == 0x2e)) {
        return true;
    }
    let split = split_bytes(path, 0x2f);
    let ghost all = piece_views(split@);
    let parent: Vec<u8> = vec![0x2e, 0x2e];
    assert(parent@ =~= parent_dir());
    for i in 0..split.len()
        invariant
            all == piece_views(split@),
            all == pieces(path@, 0x2f),
            path@ == encode_utf8(lora_path@),
            parent@ == parent_dir(),
            forall|j: int| 0 <= j < i ==> #[trigger] all[j] != parent_dir(),
    {
        assert(all[i as int] == split@[i as int]@);
        if same_bytes(split[i].as_slice(), parent.as_slice()) {
            assert(all.contains(parent_dir()));
            return true;
        }
    }
    false
}

/// The steps of a path: the root, where it is absolute, as an empty step, and then the names
/// that it goes through. A step to the directory itself says nothing, but at the start of a
/// relative path.
pub open spec fn steps(path: Seq<u8>) -> Seq<Seq<u8>> {
    let names = names_among(pieces(path, 0x2f), absolute(path));
    if absolute(path) {
        seq![Seq::empty()] + names
    } else {
        names
    }
}

/// Whether a piece of a path is one of its steps, where it stands at `i`.
pub open spec fn is_step(piece: Seq<u8>, i: int, absolute: bool) -> bool {
    piece.len() > 0 && (piece != current_dir() || (i == 0 && !absolute))
}

pub open spec fn names_among(pieces: Seq<Seq<u8>>, absolute: bool) -> Seq<Seq<u8>>
    decreases pieces.len(),
{
    if pieces.len() == 0 {
        Seq::empty()
    } else {
        let before = names_among(pieces.drop_last(), absolute);
        if is_step(pieces.last(), pieces.len() - 1, absolute) {
            before.push(pieces.last())
        } else {
            before
        }
    }
}

/// Whether a path is `prefix` or lies under it.
pub open spec fn lies_under(path: Seq<u8>, prefix: Seq<u8>) -> bool {
    steps(prefix).len() <= steps(path).len() && steps(path).take(steps(prefix).len() as int)
        == steps(prefix)
}

fn path_steps(path: &[u8]) -> (found: Vec<Vec<u8>>)
    ensures
        piece_views(found@) == steps(path@),
{
    let split = split_bytes(path, 0x2f);
    let ghost all = piece_views(split@);
    let absolute = is_absolute(path);
    let here: Vec<u8> = vec![0x2e];
    assert(here@ =~= current_dir());
    let mut found: Vec<Vec<u8>> = Vec::new();
    if absolute {
        found.push(Vec::new());
    }
    let ghost root: Seq<Seq<u8>> = if absolute {
        seq![Seq::empty()]
    } else {
        Seq::empty()
    };
    assert(all.take(0) =~= Seq::empty());
    assert(piece_views(found@) =~= root + names_among(all.take(0), absolute)) by {
        if absolute {
            assert(found@[0]@ =~= Seq::empty());
        }
    }
    for i in 0..split.len()
        invariant
            all == piece_views(split@),
            here@ == current_dir(),
            piece_views(found@) == root + names_among(all.take(i as int), absolute),
    {
        let ghost before = piece_views(found@);
        assert(all.take(i + 1).drop_last() =~= all.take(i as int));
        assert(all.take(i + 1).last() == split@[i as int]@);
        let piece = &split[i];
        if piece.len() > 0 && (!same_bytes(piece.as_slice(), here.as_slice()) || (i == 0
            && !absolute)) {
            found.push(copied(piece.as_slice()));
            assert(piece_views(found@) =~= before.push(piece@));
            assert(before.push(piece@) =~= root + names_among(all.take(i + 1), absolute));
        }
    }
    assert(all.take(all.len() as int) =~= all);
    assert(piece_views(found@) =~= steps(path@));
    found
}

/// Whether a path is `prefix` or lies under it.
pub fn path_lies_under(path: &[u8], prefix: &[u8]) -> (under: bool)
    ensures
        under == lies_under(path@, prefix@),
{
    let whole = path_steps(path);
    let start = path_steps(prefix);
    let ghost all = piece_views(whole@);
    let ghost first = piece_views(start@);
    assert(all.len() == whole@.len() && first.len() == start@.len());
    if start.len() > whole.len() {
        return false;
    }
    for i in 0..start.len()
        invariant
            all == piece_views(whole@),
            first == piece_views(start@),
            all == steps(path@),
            first == steps(prefix@),
            start@.len() <= whole@.len(),
            forall|j: int| 0 <= j < i ==> #[trigger] first[j] == all[j],
    {
        assert(first[i as int] == start@[i as int]@ && all[i as int] == whole@[i as int]@);
        if !same_bytes(whole[i].as_slice(), start[i].as_slice()) {
            assert(all.take(first.len() as int)[i as int] != first[i as int]);
            return false;
        }
    }
    assert(all.take(first.len() as int) =~= first);
    true
}

/// What is to be done with a path that was looked at.
#[derive(Debug, PartialEq, Eq)]
pub enum PathStep {
    /// It names no file, but a repository.
    NotLocal,
    /// It is to be resolved, and so are the prefixes that are allowed.
    Resolve,
}

/// The decision on a path, given whether it exists, or that this cannot be told.
pub open spec fn wanted_path_step(
    path: Seq<u8>,
    exists: Option<bool>,
    prefixes_configured: bool,
) -> Result<PathStep, LoraPathError> {
    if !looks_local(path) && exists == Some(false) {
        Ok(PathStep::NotLocal)
    } else if !looks_local(path) && exists is None {
        Err(LoraPathError::PathUnavailable)
    } else if !prefixes_configured {
        Err(LoraPathError::LocalPathsDisabled)
    } else if !absolute(path) {
        Err(LoraPathError::RelativeLocalPath)
    } else {
        Ok(PathStep::Resolve)
    }
}

/// Looks at a path. `exists` tells whether it exists, if that can be told; only for a path that
/// does not look local does it matter.
pub fn begin_path_access(lora_path: &str, exists: Option<bool>, prefixes_configured: bool) -> (
    result: Result<PathStep, LoraPathError>)
    ensures
        result == wanted_path_step(encode_utf8(lora_path@), exists, prefixes_configured),
{
    if !looks_like_local_lora_path(lora_path) {
        match exists {
            Some(false) => {
                return Ok(PathStep::NotLocal);
            },
            Some(true) => {},
            None => {
                return Err(LoraPathError::PathUnavailable);
            },
        }
    }
    if !prefixes_configured {
        return Err(LoraPathError::LocalPathsDisabled);
    }
    if !is_absolute(lora_path.as_bytes()) {
        return Err(LoraPathError::RelativeLocalPath);
    }
    Ok(PathStep::Resolve)
}

/// Whether some allowed prefix could not be resolved, and which one is the first.
pub open spec fn first_missing(resolved: Seq<Option<Vec<u8>>>) -> Option<int>
    decreases resolved.len(),
{
    if resolved.len() == 0 {
        None
    } else {
        match first_missing(resolved.drop_last()) {
            Some(i) => Some(i),
            None => if resolved.last() is None {
                Some(resolved.len() - 1)
            } else {
                None
            },
        }
    }
}

pub open spec fn under_any(path: Seq<u8>, prefixes: Seq<Option<Vec<u8>>>) -> bool {
    exists|i: int| 0 <= i < prefixes.len() && under_one(path, #[trigger] prefixes[i])
}

pub open spec fn under_one(path: Seq<u8>, prefix: Option<Vec<u8>>) -> bool {
    prefix matches Some(prefix) && lies_under(path, prefix@)
}

proof fn lemma_first_missing_prefix(resolved: Seq<Option<Vec<u8>>>, n: int)
    requires
        0 <= n <= resolved.len(),
        first_missing(resolved.take(n)) is Some,
    ensures
        first_missing(resolved) == first_missing(resolved.take(n)),
    decreases resolved.len() - n,
{
    if n < resolved.len() {
        assert(resolved.take(n + 1).drop_last() =~= resolved.take(n));
        lemma_first_missing_prefix(resolved, n + 1);
    } else {
        assert(resolved.take(n) =~= resolved);
    }
}

fn find_missing(resolved: &Vec<Option<Vec<u8>>>) -> (missing: Option<usize>)
    ensures
        match missing {
            Some(i) => first_missing(resolved@) == Some(i as int) && i < resolved@.len(),
            None => first_missing(resolved@) is None,
        },
{
    for i in 0..resolved.len()
        invariant
            first_missing(resolved@.take(i as int)) is None,
    {
        assert(resolved@.take(i + 1).drop_last() =~= resolved@.take(i as int));
        assert(resolved@.take(i + 1).last() == resolved@[i as int]);
        if resolved[i].is_none() {
            proof {
                lemma_first_missing_prefix(resolved@, i + 1);
            }
            return Some(i);
        }
    }
    assert(resolved@.take(resolved@.len() as int) =~= resolved@);
    None
}

/// Takes what resolving a path and the allowed prefixes came to: each without links and steps to
/// parents, or not resolved.
pub fn finish_path_access(
    resolved_path: Option<Vec<u8>>,
    prefixes: &Vec<Vec<u8>>,
    resolved_prefixes: &Vec<Option<Vec<u8>>>,
) -> (result: Result<Vec<u8>, LoraPathError>)
    requires
        prefixes@.len() == resolved_prefixes@.len(),
    ensures
        match resolved_path {
            None => result == Err::<Vec<u8>, LoraPathError>(LoraPathError::PathUnavailable),
            Some(path) => match first_missing(resolved_prefixes@) {
                Some(i) => result matches Err(LoraPathError::AllowedPrefixUnavailable(prefix))
                    && prefix@ == prefixes@[i]@,
                None => if under_any(path@, resolved_prefixes@) {
                    result == Ok::<Vec<u8>, LoraPathError>(path)
                } else {
                    result == Err::<Vec<u8>, LoraPathError>(LoraPathError::OutsideAllowedPrefixes)
                },
            },
        },
{
    let path = match resolved_path {
        Some(path) => path,
        None => {
            return Err(LoraPathError::PathUnavailable);
        },
    };
    if let Some(i) = find_missing(resolved_prefixes) {
        return Err(
            LoraPathError::AllowedPrefixUnavailable(copied(prefixes[i].as_slice())),
        );
    }
    for i in 0..resolved_prefixes.len()
        invariant
            first_missing(resolved_prefixes@) is None,
            resolved_path == Some(path),
            forall|j: int| 0 <= j < i ==> !under_one(path@, #[trigger] resolved_prefixes@[j]),
    {
        if let Some(prefix) = &resolved_prefixes[i] {
            if path_lies_under(path.as_slice(), prefix.as_slice()) {
                assert(under_one(path@, resolved_prefixes@[i as int]));
                return Ok(path);
            }
        }
    }
    Err(LoraPathError::OutsideAllowedPrefixes)
}

/// A path is only ever resolved if it is absolute and prefixes are configured.
pub proof fn only_absolute_paths_are_resolved(
    path: Seq<u8>,
    exists: Option<bool>,
    prefixes_configured: bool,
)
    requires
        wanted_path_step(path, exists, prefixes_configured) == Ok::<PathStep, LoraPathError>(
            PathStep::Resolve,
        ),
    ensures
        absolute(path),
        prefixes_configured,
{
}

/// A path that looks local is never taken for the name of a repository.
pub proof fn local_paths_are_never_repositories(
    path: Seq<u8>,
    exists: Option<bool>,
    prefixes_configured: bool,
)
    requires
        looks_local(path) || exists == Some(true),
    ensures
        wanted_path_step(path, exists, prefixes_configured) != Ok::<PathStep, LoraPathError>(
            PathStep::NotLocal,
        ),
{
}

/// A caller is told of each error in its own words, and that a missing prefix is the server's
/// fault and all else the caller's. Only the log names the prefix.
pub proof fn errors_are_told_apart(error: LoraPathError, status: StatusView, log: Seq<char>)
    requires
        status == wanted_path_status(error),
        log == wanted_log_message(error),
    ensures
        error is AllowedPrefixUnavailable <==> status.code == Code::Internal,
        !(error is AllowedPrefixUnavailable) <==> status.code == Code::InvalidArgument,
        error is LocalPathsDisabled ==> status.message
            == "Local LoRA adapter paths require VLLM_RUNTIME_LORA_ALLOWED_PATH_PREFIXES to be configured."@,
        error is RelativeLocalPath ==> status.message
            == "Local LoRA adapter paths must be absolute and under one of the prefixes configured by VLLM_RUNTIME_LORA_ALLOWED_PATH_PREFIXES."@,
        error is PathUnavailable ==> status.message
            == "Local LoRA adapter path must exist and be accessible."@,
        error is OutsideAllowedPrefixes ==> status.message
            == "Local LoRA adapter path is outside the configured allowed prefixes."@,
        error is AllowedPrefixUnavailable ==> status.message
            == "Runtime LoRA path policy is unavailable; check the server configuration."@,
        error matches LoraPathError::AllowedPrefixUnavailable(prefix) ==> log
            == "configured VLLM_RUNTIME_LORA_ALLOWED_PATH_PREFIXES path prefix `"@ + utf8_lossy(
            prefix@,
        ) + "` must exist and be accessible"@,
        !(error is AllowedPrefixUnavailable) ==> log == status.message,
{
}

proof fn lemma_one_piece(bytes: Seq<u8>, separator: u8)
    requires
        !bytes.contains(separator),
    ensures
        pieces(bytes, separator) == seq![bytes],
    decreases bytes.len(),
{
    if bytes.len() > 0 {
        let front = bytes.drop_last();
        assert(!front.contains(separator)) by {
            if front.contains(separator) {
                let i = choose|i: int| 0 <= i < front.len() && front[i] == separator;
                assert(bytes[i] == separator);
            }
        }
        lemma_one_piece(front, separator);
        assert(bytes[bytes.len() - 1] != separator);
        assert(front.push(bytes.last()) =~= bytes);
        assert(seq![front].drop_last().push(front.push(bytes.last())) =~= seq![bytes]);
    } else {
        assert(bytes =~= Seq::empty());
    }
}

proof fn lemma_last_piece(front: Seq<u8>, back: Seq<u8>, separator: u8)
    requires
        !back.contains(separator),
    ensures
        pieces(front.push(separator) + back, separator) == pieces(front, separator).push(back),
    decreases back.len(),
{
    let whole = front.push(separator) + back;
    if back.len() == 0 {
        assert(back =~= Seq::empty());
        assert(whole =~= front.push(separator));
        assert(whole.drop_last() =~= front);
    } else {
        let rest = back.drop_last();
        assert(!rest.contains(separator)) by {
            if rest.contains(separator) {
                let i = choose|i: int| 0 <= i < rest.len() && rest[i] == separator;
                assert(back[i] == separator);
            }
        }
        lemma_last_piece(front, rest, separator);
        assert(whole.drop_last() =~= front.push(separator) + rest);
        assert(back[back.len() - 1] != separator);
        assert(whole.last() == back.last());
        let before = pieces(front, separator).push(rest);
        assert(before.last() == rest);
        assert(before.drop_last() =~= pieces(front, separator));
        assert(rest.push(back.last()) =~= back);
    }
}

/// Bytes without a separator are one piece. A separator and bytes without one, put behind what
/// there is, are one more.
pub proof fn separators_part_the_pieces(front: Seq<u8>, back: Seq<u8>, separator: u8)
    requires
        !back.contains(separator),
    ensures
        pieces(back, separator) == seq![back],
        pieces(front.push(separator) + back, separator) == pieces(front, separator).push(back),
{
    lemma_one_piece(back, separator);
    lemma_last_piece(front, back, separator);
}

proof fn lemma_nonempty_filter(pieces: Seq<Seq<u8>>, kept: spec_fn(Seq<u8>) -> bool)
    requires
        forall|piece: Seq<u8>| #[trigger] kept(piece) == (piece.len() > 0),
    ensures
        nonempty(pieces) == pieces.filter(kept),
    decreases pieces.len(),
{
    reveal(Seq::filter);
    if pieces.len() > 0 {
        lemma_nonempty_filter(pieces.drop_last(), kept);
        assert(kept(pieces.last()) == (pieces.last().len() > 0));
    }
}

/// A list of prefixes is parted at its colons, and what is empty between them is no prefix: a
/// list with one more prefix behind a colon allows that prefix too, behind the others.
pub proof fn prefixes_are_parted_at_colons(
    front: Seq<u8>,
    back: Seq<u8>,
    kept: spec_fn(Seq<u8>) -> bool,
)
    requires
        forall|piece: Seq<u8>| #[trigger] kept(piece) == (piece.len() > 0),
        forall|i: int| 0 <= i < back.len() ==> back[i] != 58,
    ensures
        nonempty(pieces(front, 58)) == pieces(front, 58).filter(kept),
        back.len() == 0 ==> nonempty(pieces(front.push(58) + back, 58)) == nonempty(
            pieces(front, 58),
        ),
        back.len() > 0 ==> nonempty(pieces(front.push(58) + back, 58)) == nonempty(
            pieces(front, 58),
        ).push(back),
        back.len() == 0 ==> nonempty(pieces(back, 58)).len() == 0,
        back.len() > 0 ==> nonempty(pieces(back, 58)) == seq![back],
{
    separators_part_the_pieces(front, back, 58);
    lemma_nonempty_filter(pieces(front, 58), kept);
    assert(pieces(front, 58).push(back).drop_last() =~= pieces(front, 58));
    assert(seq![back].drop_last() =~= Seq::empty());
    assert(nonempty(Seq::<Seq<u8>>::empty()) =~= Seq::empty());
    assert(nonempty(seq![back]) =~= if back.len() > 0 {
        seq![back]
    } else {
        Seq::empty()
    });
}

/// A path is local by its first byte, a slash, a dot or a tilde, or by two dots that stand alone
/// between slashes.
pub proof fn local_paths_are_told_by_their_bytes(path: Seq<u8>, i: int)
    ensures
        absolute(path) <==> path.len() > 0 && path[0] == 47,
        path.len() > 0 && (path[0] == 47 || path[0] == 46 || path[0] == 126) ==> looks_local(path),
        0 <= i < pieces(path, 47).len() && pieces(path, 47)[i].len() == 2 && pieces(path, 47)[i][0]
            == 46 && pieces(path, 47)[i][1] == 46 ==> looks_local(path),
        looks_local(path) ==> path.len() > 0 && (path[0] == 47 || path[0] == 46 || path[0] == 126)
            || exists|j: int|
            0 <= j < pieces(path, 47).len() && (#[trigger] pieces(path, 47)[j]) == seq![46u8, 46u8],
{
    let split = pieces(path, 47);
    if 0 <= i < split.len() && split[i].len() == 2 && split[i][0] == 46 && split[i][1] == 46 {
        assert(split[i] =~= parent_dir());
        assert(split.contains(parent_dir()));
    }
}

proof fn lemma_pieces_some(bytes: Seq<u8>, separator: u8)
    ensures
        pieces(bytes, separator).len() > 0,
    decreases bytes.len(),
{
    if bytes.len() > 0 {
        lemma_pieces_some(bytes.drop_last(), separator);
    }
}

/// A path goes one step further by a slash and a name. A slash alone, or one and a dot, lead
/// nowhere. The root is a step of its own, and a name that stands alone another.
pub proof fn paths_go_on_by_names(path: Seq<u8>, name: Seq<u8>)
    requires
        forall|i: int| 0 <= i < name.len() ==> name[i] != 47,
    ensures
        path.len() > 0 && name.len() > 0 && name != seq![46u8] ==> steps(path.push(47) + name)
            == steps(path).push(name),
        path.len() > 0 && (name.len() == 0 || name == seq![46u8]) ==> steps(path.push(47) + name)
            == steps(path),
        name.len() > 0 ==> steps(name) == seq![name],
        steps(Seq::empty()).len() == 0,
        steps(seq![47u8]).len() == 1,
        steps(seq![47u8])[0].len() == 0,
        steps(seq![47u8] + name) == if name.len() > 0 && name != seq![46u8] {
            seq![Seq::empty(), name]
        } else {
            seq![Seq::empty()]
        },
{
    let none = Seq::<u8>::empty();
    let no_steps = Seq::<Seq<u8>>::empty();
    separators_part_the_pieces(path, name, 47);
    separators_part_the_pieces(none, name, 47);
    separators_part_the_pieces(none, none, 47);
    lemma_pieces_some(path, 47);
    assert(names_among(no_steps, true) =~= no_steps && names_among(no_steps, false) =~= no_steps);
    let further = path.push(47) + name;
    if path.len() > 0 {
        assert(further[0] == path[0]);
        let before = pieces(path, 47);
        assert(before.push(name).drop_last() =~= before);
        assert(before.push(name).last() == name);
        assert(absolute(further) == absolute(path));
        if name.len() > 0 && name != seq![46u8] {
            assert(steps(further) =~= steps(path).push(name));
        }
    }
    assert(seq![name].drop_last() =~= no_steps);
    assert(name.len() > 0 ==> name[0] != 47);
    assert(name.len() > 0 ==> steps(name) =~= seq![name]);
    assert(seq![none].drop_last() =~= no_steps);
    assert(steps(none) =~= no_steps);
    let root = seq![47u8] + name;
    assert(root =~= none.push(47) + name);
    assert(pieces(root, 47) =~= seq![none, name]);
    assert(seq![none, name].drop_last() =~= seq![none]);
    assert(names_among(seq![none], true) =~= no_steps);
    assert(absolute(root));
    assert(steps(root) =~= if name.len() > 0 && name != seq![46u8] {
        seq![none, name]
    } else {
        seq![none]
    });
    assert(seq![47u8] =~= none.push(47) + none);
    assert(pieces(seq![47u8], 47) =~= seq![none, none]);
    assert(seq![none, none].drop_last() =~= seq![none]);
    assert(absolute(seq![47u8]));
    assert(steps(seq![47u8]) =~= seq![none]);
}

/// A path lies under a prefix where it takes the steps of the prefix and any further ones.
pub proof fn paths_lie_under_their_first_steps(path: Seq<u8>, prefix: Seq<u8>, rest: Seq<Seq<u8>>)
    ensures
        steps(path) == steps(prefix) + rest ==> lies_under(path, prefix),
        lies_under(path, prefix) ==> steps(path) == steps(prefix) + steps(path).skip(
            steps(prefix).len() as int,
        ),
        lies_under(path, path),
{
    if steps(path) == steps(prefix) + rest {
        assert(steps(path).take(steps(prefix).len() as int) =~= steps(prefix));
    }
    if lies_under(path, prefix) {
        let n = steps(prefix).len() as int;
        assert(steps(path) =~= steps(path).take(n) + steps(path).skip(n));
    }
    assert(steps(path).take(steps(path).len() as int) =~= steps(path));
}

/// A path that does not look local is a repository where no file has its name, and cannot be
/// used where that cannot be told. A local one needs prefixes first, and then to be absolute.
pub proof fn paths_are_judged_in_order(path: Seq<u8>, exists: Option<bool>, configured: bool)
    ensures
        ({
            let step = wanted_path_step(path, exists, configured);
            let local = looks_local(path) || exists == Some(true);
            &&& !local && exists is Some ==> step == Ok::<PathStep, LoraPathError>(
                PathStep::NotLocal,
            )
            &&& !local && exists is None ==> step == Err::<PathStep, LoraPathError>(
                LoraPathError::PathUnavailable,
            )
            &&& local && !configured ==> step == Err::<PathStep, LoraPathError>(
                LoraPathError::LocalPathsDisabled,
            )
            &&& local && configured && !(path.len() > 0 && path[0] == 47) ==> step == Err::<
                PathStep,
                LoraPathError,
            >(LoraPathError::RelativeLocalPath)
            &&& local && configured && path.len() > 0 && path[0] == 47 ==> step == Ok::<
                PathStep,
                LoraPathError,
            >(PathStep::Resolve)
        }),
{
    if let Some(there) = exists {
        assert(exists == Some(there));
    }
}

/// The prefix that is told as missing is missing, and none before it is; where none is told, all
/// are there.
pub proof fn the_first_missing_prefix_is_told(resolved: Seq<Option<Vec<u8>>>)
    ensures
        first_missing(resolved) matches Some(i) ==> 0 <= i < resolved.len() && resolved[i] is None
            && forall|j: int| 0 <= j < i ==> (#[trigger] resolved[j]) is Some,
        first_missing(resolved) is None ==> forall|j: int|
            0 <= j < resolved.len() ==> (#[trigger] resolved[j]) is Some,
    decreases resolved.len(),
{
    if resolved.len() > 0 {
        the_first_missing_prefix_is_told(resolved.drop_last());
        assert forall|j: int| 0 <= j < resolved.len() - 1 implies resolved[j]
            == #[trigger] resolved.drop_last()[j] by {}
        assert forall|j: int| first_missing(resolved) is None && 0 <= j < resolved.len() implies (
        #[trigger] resolved[j]) is Some by {
            if j < resolved.len() - 1 {
                assert(resolved.drop_last()[j] is Some);
            }
        }
        assert forall|j: int|
            first_missing(resolved) matches Some(i) && 0 <= j < i implies (
        #[trigger] resolved[j]) is Some by {
            assert(resolved.drop_last()[j] is Some);
        }
    }
}

/// A path is allowed where it lies under one of the prefixes that were resolved.
pub proof fn paths_are_allowed_under_a_prefix(
    path: Seq<u8>,
    prefixes: Seq<Option<Vec<u8>>>,
    i: int,
)
    ensures
        0 <= i < prefixes.len() ==> (prefixes[i] matches Some(prefix) ==> lies_under(path, prefix@)
            ==> under_any(path, prefixes)),
        under_any(path, prefixes) ==> exists|j: int|
            0 <= j < prefixes.len() && (#[trigger] prefixes[j]) is Some && lies_under(
                path,
                prefixes[j]->Some_0@,
            ),
{
    if 0 <= i < prefixes.len() && prefixes[i] is Some && lies_under(path, prefixes[i]->Some_0@) {
        assert(under_one(path, prefixes[i]));
    }
}

} // verus!
