//! Properties of project paths and of the project policy.
use vstd::prelude::*;
use vstd::utf8::{valid_utf8, decode_utf8, encode_utf8, is_ascii_chars};
use crate::codec::{starts_with_utf8_bom, text_encoded_as, utf8_bom};
use crate::encoding::TextEncoding;
use crate::error::TextEncodingFailure;
use crate::paths::{
    PathConvention, ProjectPathView, is_separator, joined, path_segments, relative_location,
    same_location, split_state,
};
use crate::policy::{existing_decoded, policy_encoding_for_path};
use crate::project::{ProjectPolicyView, added_file_encoded, only_touches, policy_path_of};

verus! {

/// A segment: non-empty, with no separator of the convention.
pub open spec fn is_segment(segment: Seq<char>, convention: PathConvention) -> bool {
    segment.len() > 0 && forall|i: int| 0 <= i < segment.len() ==> !is_separator(#[trigger] segment[i], convention)
}

/// Every element is a segment.
pub open spec fn all_segments(segments: Seq<Seq<char>>, convention: PathConvention) -> bool {
    forall|i: int| 0 <= i < segments.len() ==> is_segment(#[trigger] segments[i], convention)
}

/// Reading characters without separators extends the segment being read.
proof fn lemma_split_extends(prefix: Seq<char>, text: Seq<char>, convention: PathConvention)
    requires
        forall|i: int| 0 <= i < text.len() ==> !is_separator(#[trigger] text[i], convention),
    ensures
        split_state(prefix + text, convention)
            == (split_state(prefix, convention).0, split_state(prefix, convention).1 + text),
    decreases text.len(),
{
    if text.len() == 0 {
        assert(prefix + text =~= prefix);
        assert(split_state(prefix, convention).1 + text =~= split_state(prefix, convention).1);
    } else {
        let shorter = text.drop_last();
        lemma_split_extends(prefix, shorter, convention);
        let whole = prefix + text;
        assert(whole.drop_last() =~= prefix + shorter);
        assert(whole.last() == text.last());
        assert(split_state(prefix, convention).1 + shorter + seq![text.last()]
            =~= split_state(prefix, convention).1 + text);
    }
}

/// The state after reading the segments joined with `/`: all but the last
/// are complete, the last is being read.
proof fn lemma_split_joined(segments: Seq<Seq<char>>, convention: PathConvention)
    requires
        segments.len() > 0,
        all_segments(segments, convention),
    ensures
        split_state(joined(segments), convention) == (segments.drop_last(), segments.last()),
    decreases segments.len(),
{
    if segments.len() == 1 {
        lemma_split_extends(Seq::empty(), segments[0], convention);
        assert(Seq::<char>::empty() + segments[0] =~= segments[0]);
        assert(Seq::<char>::empty() + segments[0] =~= segments[0]);
        assert(segments.drop_last() =~= Seq::<Seq<char>>::empty());
    } else {
        let front = segments.drop_last();
        assert(all_segments(front, convention)) by {
            assert forall|i: int| 0 <= i < front.len() implies is_segment(#[trigger] front[i], convention) by {
                assert(front[i] == segments[i]);
            }
        }
        lemma_split_joined(front, convention);
        let head = joined(front) + seq!['/'];
        assert(head.drop_last() =~= joined(front));
        assert(head.last() == '/');
        assert(front.drop_last().push(front.last()) =~= front);
        assert(split_state(head, convention) == (front, Seq::<char>::empty()));
        assert(is_segment(segments.last(), convention));
        lemma_split_extends(head, segments.last(), convention);
        assert(Seq::<char>::empty() + segments.last() =~= segments.last());
    }
}

/// Joining segments with `/` and splitting the result gives the segments
/// back.
pub proof fn law_split_of_joined_segments(segments: Seq<Seq<char>>, convention: PathConvention)
    requires
        all_segments(segments, convention),
    ensures
        path_segments(joined(segments), convention) == segments,
{
    if segments.len() == 0 {
        assert(split_state(Seq::<char>::empty(), convention) == (Seq::<Seq<char>>::empty(), Seq::<char>::empty()));
    } else {
        lemma_split_joined(segments, convention);
        assert(segments.drop_last().push(segments.last()) =~= segments);
    }
}

/// What splitting produces are segments: the completed ones are non-empty and
/// none holds a separator.
proof fn lemma_split_state_segments(text: Seq<char>, convention: PathConvention)
    ensures
        all_segments(split_state(text, convention).0, convention),
        forall|i: int| 0 <= i < split_state(text, convention).1.len()
            ==> !is_separator(#[trigger] split_state(text, convention).1[i], convention),
    decreases text.len(),
{
    if text.len() > 0 {
        lemma_split_state_segments(text.drop_last(), convention);
        let (done, current) = split_state(text.drop_last(), convention);
        let c = text.last();
        if !is_separator(c, convention) {
            let next = current.push(c);
            assert forall|i: int| 0 <= i < next.len() implies !is_separator(#[trigger] next[i], convention) by {
                if i < current.len() {
                    assert(next[i] == current[i]);
                }
            }
        } else if current.len() > 0 {
            let next = done.push(current);
            assert forall|i: int| 0 <= i < next.len() implies is_segment(#[trigger] next[i], convention) by {
                if i < done.len() {
                    assert(next[i] == done[i]);
                }
            }
        }
    }
}

/// The segments of any path are segments.
pub proof fn law_path_segments_are_segments(text: Seq<char>, convention: PathConvention)
    ensures
        all_segments(path_segments(text, convention), convention),
{
    lemma_split_state_segments(text, convention);
    let (done, current) = split_state(text, convention);
    if current.len() > 0 {
        let all = done.push(current);
        assert forall|i: int| 0 <= i < all.len() implies is_segment(#[trigger] all[i], convention) by {
            if i < done.len() {
                assert(all[i] == done[i]);
            }
        }
    }
}

/// A relative path holds exactly the target's segments after the root's:
/// splitting it gives `path_segments(target).skip(path_segments(root).len())`.
pub proof fn law_relative_path_keeps_remaining_segments(root: ProjectPathView, path: ProjectPathView)
    requires
        relative_location(root, path) is Some,
    ensures
        ({
            let convention = root.convention->Some_0;
            path_segments(relative_location(root, path)->Some_0, convention)
                == path_segments(path.native_path, convention).skip(
                    path_segments(root.native_path, convention).len() as int)
        }),
{
    let convention = root.convention->Some_0;
    let target = path_segments(path.native_path, convention);
    let rest = target.skip(path_segments(root.native_path, convention).len() as int);
    law_path_segments_are_segments(path.native_path, convention);
    assert forall|i: int| 0 <= i < rest.len() implies is_segment(#[trigger] rest[i], convention) by {
        assert(rest[i] == target[i + path_segments(root.native_path, convention).len()]);
    }
    law_split_of_joined_segments(rest, convention);
}

/// A broken configuration is replaced by the default policy only when every
/// path of the patch is the configuration file: one other path, or an empty
/// patch, rules the repair out.
pub proof fn law_repair_needs_only_the_config_file(
    patch_paths: Seq<ProjectPathView>,
    config_path: ProjectPathView,
)
    ensures
        patch_paths.len() == 0 ==> !only_touches(patch_paths, config_path),
        forall|k: int| 0 <= k < patch_paths.len() && !same_location(#[trigger] patch_paths[k], config_path)
            ==> !only_touches(patch_paths, config_path),
        only_touches(patch_paths, config_path) ==> forall|k: int|
            0 <= k < patch_paths.len() ==> same_location(#[trigger] patch_paths[k], config_path),
{
}

/// Adding a file over an existing one that decodes keeps that file's encoding
/// and byte-order mark: the content is written as edited text of that file.
pub proof fn law_added_file_keeps_existing_encoding(
    project: ProjectPolicyView,
    path: ProjectPathView,
    bytes: Seq<u8>,
    content: Seq<char>,
)
    requires
        existing_decoded(project.policy, policy_path_of(project.root, path), bytes) is Ok,
    ensures
        ({
            let (_, encoding, has_utf8_bom) = existing_decoded(project.policy, policy_path_of(project.root, path), bytes)->Ok_0;
            added_file_encoded(project, path, Some(bytes), content) == text_encoded_as(content, encoding, has_utf8_bom)
        }),
{
}

/// Adding a file over existing non-ASCII UTF-8 writes UTF-8, whatever the
/// path rules select.
pub proof fn law_added_file_over_utf8_stays_utf8(
    project: ProjectPolicyView,
    path: ProjectPathView,
    bytes: Seq<u8>,
    content: Seq<char>,
)
    requires
        project.policy.preserve_existing,
        !starts_with_utf8_bom(bytes),
        valid_utf8(bytes),
        !is_ascii_chars(decode_utf8(bytes)),
    ensures
        added_file_encoded(project, path, Some(bytes), content) == Ok::<Seq<u8>, TextEncodingFailure>(encode_utf8(content)),
{
}

/// Adding a file over an existing file with a UTF-8 byte-order mark keeps the
/// mark.
pub proof fn law_added_file_over_bom_keeps_bom(
    project: ProjectPolicyView,
    path: ProjectPathView,
    bytes: Seq<u8>,
    content: Seq<char>,
)
    requires
        starts_with_utf8_bom(bytes),
        valid_utf8(bytes.skip(3)),
    ensures
        added_file_encoded(project, path, Some(bytes), content)
            == Ok::<Seq<u8>, TextEncodingFailure>(utf8_bom() + encode_utf8(content)),
{
}

/// Adding a file where there is none writes it as a new file: in the encoding
/// the path rules select, with no byte-order mark.
pub proof fn law_added_file_without_existing_is_new(
    project: ProjectPolicyView,
    path: ProjectPathView,
    content: Seq<char>,
)
    ensures
        added_file_encoded(project, path, None, content) == text_encoded_as(
            content, policy_encoding_for_path(project.policy, policy_path_of(project.root, path)), false),
{
}

/// Under the POSIX convention two locations are the same exactly when they
/// share scheme, host and convention and have the same segments.
pub proof fn law_posix_locations_compare_segments(left: ProjectPathView, right: ProjectPathView)
    requires
        left.convention == Some(PathConvention::Posix),
    ensures
        same_location(left, right) <==> {
            &&& left.scheme == right.scheme
            &&& left.host == right.host
            &&& right.convention == Some(PathConvention::Posix)
            &&& path_segments(left.native_path, PathConvention::Posix)
                == path_segments(right.native_path, PathConvention::Posix)
        },
{
    let l = path_segments(left.native_path, PathConvention::Posix);
    let r = path_segments(right.native_path, PathConvention::Posix);
    if same_location(left, right) {
        assert forall|i: int| 0 <= i < l.len() implies l[i] == r[i] by {
            assert(crate::paths::segments_equal(PathConvention::Posix, l[i], r[i]));
        }
        assert(l =~= r);
    }
}

/// Every location with a convention is the same location as itself, and is
/// its own root with an empty relative path.
pub proof fn law_location_relative_to_itself(path: ProjectPathView)
    requires
        path.convention is Some,
    ensures
        same_location(path, path),
        relative_location(path, path) == Some(Seq::<char>::empty()),
{
    let convention = path.convention->Some_0;
    let segments = path_segments(path.native_path, convention);
    assert forall|i: int| 0 <= i < segments.len() implies
        #[trigger] crate::paths::segments_equal(convention, segments[i], segments[i]) by {}
    assert(segments.skip(segments.len() as int) =~= Seq::<Seq<char>>::empty());
}

} // verus!
