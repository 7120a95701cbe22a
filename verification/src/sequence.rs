//! Sequence resolver: from what a look at the disk found to a playable
//! sequence.
//!
//! The caller lists the candidate folders and hands the outcomes in as
//! [`FolderProbe`] values; everything after that — counting the files with
//! the right extension, choosing the point folder, pairing or silently
//! skipping the label folder, and laying out the empty frame store — is
//! decided here.  File names follow the `NNNNNN.<ext>` convention with the
//! index zero-padded to six digits.

use vstd::prelude::*;
use vstd::pervasive::VecAdditionalExecFns;
use crate::codec::Frame;

verus! {

/// What a look at one folder on disk found: the folder is absent, it could
/// not be read, or it holds these entry names.
#[derive(Debug, Clone)]
pub enum FolderProbe {
    Missing,
    Unreadable(String),
    Files(Vec<String>),
}

/// Load marker of one frame slot.  `Loaded` holds exactly when the slot
/// holds a decoded frame.
#[derive(PartialEq, Eq, Structural, Debug, Clone, Copy)]
pub enum LoadState {
    NotRequested,
    Requested,
    Loaded,
}

/// Why a sequence folder could not be opened.
#[derive(Debug, Clone)]
pub enum SequenceReadError {
    FolderDontExist,
    ReadFolder(String),
    MissingFilesWithExtension(String),
    LabelFilesCountMismatch { expected: usize, received: usize },
}

/// An ordered collection of frames backed by a folder of record files:
/// the point folder, the optional label folder, and one slot with its load
/// state per frame.
pub struct Sequence {
    pub point_folder: String,
    pub label_folder: Option<String>,
    pub frames: Vec<Option<Frame>>,
    pub load_states: Vec<LoadState>,
    pub frame_count: usize,
}

impl Sequence {
    /// Both per-frame arrays cover every frame, and a slot is marked
    /// `Loaded` exactly when it holds a frame.
    pub open spec fn wf(&self) -> bool {
        &&& self.frames@.len() == self.frame_count
        &&& self.load_states@.len() == self.frame_count
        &&& forall|i: int|
            0 <= i < self.frame_count ==> ((self.load_states@[i] is Loaded) <==> (
            self.frames@[i] is Some))
    }

    /// The slot at `i` holds nothing and is marked not requested.
    pub open spec fn slot_empty(&self, i: int) -> bool {
        self.frames@[i] == Option::<Frame>::None && self.load_states@[i]
            == LoadState::NotRequested
    }

    /// The slot at `i` is unchanged from its state in `other`.
    pub open spec fn slot_unchanged(&self, other: &Sequence, i: int) -> bool {
        self.frames@[i] == other.frames@[i] && self.load_states@[i] == other.load_states@[i]
    }

    /// Empties every slot whose index falls outside `[lo, hi)`; slots
    /// inside the range keep their frame and load state.
    pub(crate) fn evict_outside(&mut self, lo: usize, hi: usize)
        requires
            old(self).wf(),
        ensures
            final(self).wf(),
            final(self).point_folder == old(self).point_folder,
            final(self).label_folder == old(self).label_folder,
            final(self).frame_count == old(self).frame_count,
            final(self).frames@.len() == old(self).frames@.len(),
            final(self).load_states@.len() == old(self).load_states@.len(),
            forall|i: int|
                0 <= i < final(self).frames@.len() && lo <= i < hi ==> final(self).slot_unchanged(
                    old(self),
                    i,
                ),
            forall|i: int|
                0 <= i < final(self).frames@.len() && !(lo <= i < hi) ==> final(self).slot_empty(
                    i,
                ),
    {
        let n: usize = self.frames.len();
        let mut i: usize = 0;
        while i < n
            invariant
                i <= n,
                n == old(self).frames@.len(),
                self.wf(),
                self.point_folder == old(self).point_folder,
                self.label_folder == old(self).label_folder,
                self.frame_count == old(self).frame_count,
                self.frames@.len() == old(self).frames@.len(),
                self.load_states@.len() == old(self).load_states@.len(),
                forall|k: int|
                    0 <= k < i && lo <= k < hi ==> self.frames@[k] == old(self).frames@[k]
                        && self.load_states@[k] == old(self).load_states@[k],
                forall|k: int|
                    0 <= k < i && !(lo <= k < hi) ==> self.frames@[k] == Option::<Frame>::None
                        && self.load_states@[k] == LoadState::NotRequested,
                forall|k: int|
                    i <= k < n ==> self.frames@[k] == old(self).frames@[k]
                        && self.load_states@[k] == old(self).load_states@[k],
            decreases n - i,
        {
            if !(lo <= i && i < hi) {
                self.frames.set(i, None);
                self.load_states.set(i, LoadState::NotRequested);
            }
            i = i + 1;
        }
    }

    /// Empties the single slot `idx`, if it exists; every other slot keeps
    /// its frame and load state.
    pub(crate) fn evict_at(&mut self, idx: usize)
        requires
            old(self).wf(),
        ensures
            final(self).wf(),
            final(self).point_folder == old(self).point_folder,
            final(self).label_folder == old(self).label_folder,
            final(self).frame_count == old(self).frame_count,
            final(self).frames@.len() == old(self).frames@.len(),
            final(self).load_states@.len() == old(self).load_states@.len(),
            idx < old(self).frames@.len() ==> final(self).slot_empty(idx as int),
            forall|i: int|
                0 <= i < final(self).frames@.len() && i != idx ==> final(self).slot_unchanged(
                    old(self),
                    i,
                ),
    {
        if idx < self.frames.len() {
            self.frames.set(idx, None);
            self.load_states.set(idx, LoadState::NotRequested);
        }
    }
}

/// Whether the file name carries exactly this extension: a dot after the
/// first character, nothing but the extension after that dot.
pub open spec fn name_has_extension(name: Seq<char>, ext: Seq<char>) -> bool {
    exists|k: int|
        0 < k < name.len() && name[k] == '.' && (forall|j: int|
            k < j < name.len() ==> name[j] != '.') && name.subrange(k + 1, name.len() as int)
            == ext
}

/// How many of the names carry the extension.
pub open spec fn count_with_extension(names: Seq<String>, ext: Seq<char>) -> nat
    decreases names.len(),
{
    if names.len() == 0 {
        0
    } else {
        count_with_extension(names.drop_last(), ext) + if name_has_extension(
            names.last()@,
            ext,
        ) {
            1nat
        } else {
            0nat
        }
    }
}

/// Whether `name` ends in a dot followed by exactly `ext`, with at least
/// one character before the dot.
pub fn has_extension(name: &str, ext: &str) -> (r: bool)
    ensures
        r == name_has_extension(name@, ext@),
{
    let name_len: usize = name.unicode_len();
    let ext_len: usize = ext.unicode_len();
    if name_len <= ext_len || name_len - ext_len < 2 {
        // No room for a leading character, the dot and the extension.
        assert forall|k: int| !(0 < k < name@.len() && name@[k] == '.' && (forall|j: int|
            k < j < name@.len() ==> name@[j] != '.') && name@.subrange(k + 1, name@.len() as int)
            == ext@) by {
            if 0 < k < name@.len() && name@.subrange(k + 1, name@.len() as int) == ext@ {
                assert(name@.subrange(k + 1, name@.len() as int).len() == ext@.len());
            }
        }
        return false;
    }
    let dot: usize = name_len - ext_len - 1;
    if name.get_char(dot) != '.' {
        // The character just before the would-be extension is not a dot, so
        // either there is no dot at all after position `dot`, or the piece
        // after the last dot is longer or shorter than `ext`.
        assert forall|k: int| !(0 < k < name@.len() && name@[k] == '.' && (forall|j: int|
            k < j < name@.len() ==> name@[j] != '.') && name@.subrange(k + 1, name@.len() as int)
            == ext@) by {
            if 0 < k < name@.len() && name@[k] == '.' && name@.subrange(k + 1, name@.len() as int)
                == ext@ {
                assert(name@.subrange(k + 1, name@.len() as int).len() == ext@.len());
                assert(k == dot);
            }
        }
        return false;
    }
    let mut i: usize = 0;
    while i < ext_len
        invariant
            i <= ext_len,
            ext_len == ext@.len(),
            name_len == name@.len(),
            dot == name_len - ext_len - 1,
            name@[dot as int] == '.',
            forall|j: int| 0 <= j < i ==> name@[dot + 1 + j] == ext@[j],
        decreases ext_len - i,
    {
        if name.get_char(dot + 1 + i) != ext.get_char(i) {
            assert forall|k: int| !(0 < k < name@.len() && name@[k] == '.' && (forall|j: int|
                k < j < name@.len() ==> name@[j] != '.') && name@.subrange(
                k + 1,
                name@.len() as int,
            ) == ext@) by {
                if 0 < k < name@.len() && name@[k] == '.' && name@.subrange(
                    k + 1,
                    name@.len() as int,
                ) == ext@ {
                    assert(name@.subrange(k + 1, name@.len() as int).len() == ext@.len());
                    assert(k == dot);
                    assert(name@.subrange(k + 1, name@.len() as int)[i as int] == ext@[i as int]);
                }
            }
            return false;
        }
        i = i + 1;
    }
    // Every character of the extension matches; the extension itself holds
    // no dot only if `ext` holds none, which the last-dot clause needs.
    let mut j: usize = 0;
    while j < ext_len
        invariant
            j <= ext_len,
            ext_len == ext@.len(),
            name_len == name@.len(),
            dot == name_len - ext_len - 1,
            name@[dot as int] == '.',
            forall|t: int| 0 <= t < ext@.len() ==> name@[dot + 1 + t] == ext@[t],
            forall|t: int| 0 <= t < j ==> ext@[t] != '.',
        decreases ext_len - j,
    {
        if ext.get_char(j) == '.' {
            // A dot inside the extension: the last dot of the name sits
            // inside the would-be extension, so no split matches `ext`.
            assert forall|k: int| !(0 < k < name@.len() && name@[k] == '.' && (forall|t: int|
                k < t < name@.len() ==> name@[t] != '.') && name@.subrange(
                k + 1,
                name@.len() as int,
            ) == ext@) by {
                if 0 < k < name@.len() && name@[k] == '.' && (forall|t: int|
                    k < t < name@.len() ==> name@[t] != '.') && name@.subrange(
                    k + 1,
                    name@.len() as int,
                ) == ext@ {
                    assert(name@[dot + 1 + j] == '.');
                    assert(k < dot + 1 + j);
                }
            }
            return false;
        }
        j = j + 1;
    }
    assert(name_has_extension(name@, ext@)) by {
        let k = dot as int;
        assert(name@.subrange(k + 1, name@.len() as int) =~= ext@);
        assert forall|t: int| k < t < name@.len() implies name@[t] != '.' by {
            assert(name@[t] == ext@[t - (k + 1)]);
        }
    }
    true
}

/// Counts the entry names that carry the extension.
pub fn count_files_with_extension(names: &Vec<String>, ext: &str) -> (r: usize)
    ensures
        r == count_with_extension(names@, ext@),
{
    let mut r: usize = 0;
    let mut i: usize = 0;
    proof {
        assert(names@.take(0) =~= Seq::<String>::empty());
    }
    while i < names.len()
        invariant
            i <= names@.len(),
            r == count_with_extension(names@.take(i as int), ext@),
            r <= i,
        decreases names@.len() - i,
    {
        let matched = has_extension(names[i].as_str(), ext);
        proof {
            assert(names@.take(i + 1).drop_last() =~= names@.take(i as int));
            assert(names@.take(i + 1).last() == names@[i as int]);
        }
        if matched {
            r = r + 1;
        }
        i = i + 1;
    }
    proof {
        assert(names@.take(names@.len() as int) =~= names@);
    }
    r
}

/// Counts the files with the extension in a probed folder, or says why the
/// folder gave no count.
pub fn count_folder_files_with_extension(folder: &FolderProbe, ext: &str) -> (r: Result<
    usize,
    SequenceReadError,
>)
    ensures
        match folder {
            FolderProbe::Missing => r matches Err(SequenceReadError::FolderDontExist),
            FolderProbe::Unreadable(m) => (r matches Err(SequenceReadError::ReadFolder(msg))
                && msg@ == m@),
            FolderProbe::Files(names) => (r matches Ok(c) && c == count_with_extension(
                names@,
                ext@,
            )),
        },
{
    match folder {
        FolderProbe::Missing => Err(SequenceReadError::FolderDontExist),
        FolderProbe::Unreadable(m) => Err(
            SequenceReadError::ReadFolder(String::from_str(m.as_str())),
        ),
        FolderProbe::Files(names) => Ok(count_files_with_extension(names, ext)),
    }
}

/// Validates a folder the operator explicitly picked as the label folder:
/// it must be readable, hold at least one label file, and hold exactly
/// `frame_count` of them.  Unlike sequence opening, a count mismatch is
/// reported here rather than silently skipped, because the action was
/// user-initiated.
pub fn is_valid_label_dir(folder: &FolderProbe, frame_count: usize) -> (r: Result<
    (),
    SequenceReadError,
>)
    ensures
        match folder {
            FolderProbe::Missing => r matches Err(SequenceReadError::FolderDontExist),
            FolderProbe::Unreadable(m) => (r matches Err(SequenceReadError::ReadFolder(msg))
                && msg@ == m@),
            FolderProbe::Files(names) => {
                let c = count_with_extension(names@, "label"@);
                if c == 0 {
                    r matches Err(SequenceReadError::MissingFilesWithExtension(e)) && e@
                        == "label"@
                } else if c == frame_count {
                    r is Ok
                } else {
                    r matches Err(SequenceReadError::LabelFilesCountMismatch {
                        expected,
                        received,
                    }) && expected == frame_count && received == c
                }
            },
        },
{
    let count = match count_folder_files_with_extension(folder, "label") {
        Ok(c) => c,
        Err(e) => {
            return Err(e);
        },
    };
    if count == 0 {
        // at least one label file is required, whatever count was expected
        Err(SequenceReadError::MissingFilesWithExtension(String::from_str("label")))
    } else if count == frame_count {
        Ok(())
    } else {
        Err(SequenceReadError::LabelFilesCountMismatch { expected: frame_count, received: count })
    }
}

/// A freshly resolved sequence: the given folder and count, every slot
/// empty, and the label folder exactly as resolved.
pub open spec fn fresh_sequence(
    s: &Sequence,
    point_folder: Seq<char>,
    label_folder: Option<Seq<char>>,
    count: nat,
) -> bool {
    &&& s.wf()
    &&& s.frame_count == count
    &&& s.point_folder@ == point_folder
    &&& match label_folder {
        Some(v) => s.label_folder matches Some(l) && l@ == v,
        None => s.label_folder is None,
    }
    &&& forall|i: int| 0 <= i < count ==> s.slot_empty(i)
}

/// What the resolved label folder is, once the point folder and frame count
/// stand: a readable folder whose label-file count equals the frame count,
/// and nothing otherwise.
pub open spec fn resolved_label_folder(
    labels: &FolderProbe,
    labels_path: Seq<char>,
    count: nat,
) -> Option<Seq<char>> {
    match labels {
        FolderProbe::Files(names) => if count_with_extension(names@, "label"@) == count {
            Some(labels_path)
        } else {
            None
        },
        _ => None,
    }
}

/// The outcome once the point folder is resolved: a label-folder read
/// failure aborts the open, otherwise the sequence comes back fresh, with
/// the label folder paired only on an exact count match.
pub open spec fn resolves_with_points(
    r: &Result<Sequence, SequenceReadError>,
    point_folder: Seq<char>,
    count: nat,
    labels: &FolderProbe,
    labels_path: Seq<char>,
) -> bool {
    match labels {
        FolderProbe::Unreadable(m) => (r matches Err(SequenceReadError::ReadFolder(msg)) && msg@
            == m@),
        _ => (r matches Ok(s) && fresh_sequence(
            s,
            point_folder,
            resolved_label_folder(labels, labels_path, count),
            count,
        )),
    }
}

/// The fallback once `root/velodyne` offers no point files: the points
/// come from `root` itself, and only a root folder that exists, is
/// readable, and still holds no point file fails with the missing-files
/// error.
pub open spec fn resolves_from_root(
    r: &Result<Sequence, SequenceReadError>,
    root: Seq<char>,
    root_probe: &FolderProbe,
    labels: &FolderProbe,
) -> bool {
    match root_probe {
        FolderProbe::Unreadable(m) => (r matches Err(SequenceReadError::ReadFolder(msg)) && msg@
            == m@),
        FolderProbe::Files(names) => {
            let c = count_with_extension(names@, "bin"@);
            if c == 0 {
                r matches Err(SequenceReadError::MissingFilesWithExtension(e)) && e@ == "bin"@
            } else {
                resolves_with_points(r, root, c, labels, root + "/labels"@)
            }
        },
        FolderProbe::Missing => r matches Err(SequenceReadError::FolderDontExist),
    }
}

/// Resolves a sequence from what probing the root folder found.
///
/// `velodyne` is the probe of `root/velodyne`, `root_probe` of `root`
/// itself, and `labels` of `root/labels`.  Points come from `root/velodyne`
/// when that folder exists and holds point files; an absent *or empty*
/// `velodyne` falls back to counting point files in `root` directly, and
/// only when neither location has any does the open fail.  An absent or
/// mismatching label folder is silently skipped.
pub fn read_sequence_from_dir(
    root: &str,
    velodyne: &FolderProbe,
    root_probe: &FolderProbe,
    labels: &FolderProbe,
) -> (r: Result<Sequence, SequenceReadError>)
    ensures
        match velodyne {
            FolderProbe::Unreadable(m) => (r matches Err(SequenceReadError::ReadFolder(msg))
                && msg@ == m@),
            FolderProbe::Files(names) => {
                let c = count_with_extension(names@, "bin"@);
                if c == 0 {
                    resolves_from_root(&r, root@, root_probe, labels)
                } else {
                    resolves_with_points(&r, root@ + "/velodyne"@, c, labels, root@ + "/labels"@)
                }
            },
            FolderProbe::Missing => resolves_from_root(&r, root@, root_probe, labels),
        },
{
    let velodyne_path = String::from_str(root).concat("/velodyne");
    let velodyne_count: usize = match count_folder_files_with_extension(velodyne, "bin") {
        Ok(count) => count,
        Err(SequenceReadError::FolderDontExist) => 0,
        Err(e) => {
            return Err(e);
        },
    };
    let (frame_count, point_folder) = if velodyne_count > 0 {
        (velodyne_count, velodyne_path)
    } else {
        // absent or empty subfolder: the root folder itself may hold the
        // point files
        match count_folder_files_with_extension(root_probe, "bin") {
            Ok(count) => {
                if count == 0 {
                    return Err(
                        SequenceReadError::MissingFilesWithExtension(String::from_str("bin")),
                    );
                }
                (count, String::from_str(root))
            },
            Err(e) => {
                return Err(e);
            },
        }
    };
    let labels_path = String::from_str(root).concat("/labels");
    let label_folder = match count_folder_files_with_extension(labels, "label") {
        Ok(count) => {
            if count == frame_count {
                Some(labels_path)
            } else {
                None
            }
        },
        Err(SequenceReadError::FolderDontExist) => None,
        Err(e) => {
            return Err(e);
        },
    };
    let mut frames: Vec<Option<Frame>> = Vec::new();
    // frames and load_states grow together, one empty slot per frame
    let mut load_states: Vec<LoadState> = Vec::new();
    let mut i: usize = 0;
    while i < frame_count
        invariant
            i <= frame_count,
            frames@.len() == i,
            load_states@.len() == i,
            forall|k: int| 0 <= k < i ==> frames@[k] is None,
            forall|k: int| 0 <= k < i ==> load_states@[k] is NotRequested,
        decreases frame_count - i,
    {
        frames.push(None);
        load_states.push(LoadState::NotRequested);
        i = i + 1;
    }
    Ok(Sequence { point_folder, label_folder, frames, load_states, frame_count })
}

/// The character of one decimal digit.
pub open spec fn digit_char(d: nat) -> char {
    if d == 0 {
        '0'
    } else if d == 1 {
        '1'
    } else if d == 2 {
        '2'
    } else if d == 3 {
        '3'
    } else if d == 4 {
        '4'
    } else if d == 5 {
        '5'
    } else if d == 6 {
        '6'
    } else if d == 7 {
        '7'
    } else if d == 8 {
        '8'
    } else {
        '9'
    }
}

/// The decimal digits of `n`, most significant first.
pub open spec fn dec_digits(n: nat) -> Seq<char>
    decreases n,
{
    if n < 10 {
        seq![digit_char(n)]
    } else {
        dec_digits(n / 10).push(digit_char(n % 10))
    }
}

/// The decimal digits of `n`, left-padded with zeros to at least six
/// characters: the on-disk frame-file naming convention.
pub open spec fn padded_index(n: nat) -> Seq<char> {
    if dec_digits(n).len() >= 6 {
        dec_digits(n)
    } else {
        Seq::new((6 - dec_digits(n).len()) as nat, |i: int| '0') + dec_digits(n)
    }
}

fn digit_str(d: usize) -> (r: &'static str)
    requires
        d < 10,
    ensures
        r@ == seq![digit_char(d as nat)],
{
    proof {
        reveal_strlit("0");
        reveal_strlit("1");
        reveal_strlit("2");
        reveal_strlit("3");
        reveal_strlit("4");
        reveal_strlit("5");
        reveal_strlit("6");
        reveal_strlit("7");
        reveal_strlit("8");
        reveal_strlit("9");
    }
    let r = match d {
        0 => "0",
        1 => "1",
        2 => "2",
        3 => "3",
        4 => "4",
        5 => "5",
        6 => "6",
        7 => "7",
        8 => "8",
        _ => "9",
    };
    assert(r@ =~= seq![digit_char(d as nat)]);
    r
}

fn decimal_string(n: usize) -> (r: String)
    ensures
        r@ == dec_digits(n as nat),
    decreases n,
{
    if n < 10 {
        String::from_str(digit_str(n))
    } else {
        let r = decimal_string(n / 10).concat(digit_str(n % 10));
        assert(r@ =~= dec_digits(n as nat));
        r
    }
}

/// The file name of frame `index` with the given extension: the index
/// zero-padded to six digits, a dot, the extension.
pub fn frame_file_name(index: usize, ext: &str) -> (r: String)
    ensures
        r@ == padded_index(index as nat) + "."@ + ext@,
{
    let digits = decimal_string(index);
    let digits_len: usize = digits.as_str().unicode_len();
    let mut s = String::from_str("");
    proof {
        reveal_strlit("");
        reveal_strlit("0");
        assert(s@ =~= Seq::new(0, |i: int| '0'));
    }
    let mut k: usize = digits_len;
    while k < 6
        invariant
            digits_len <= k <= 6 || (k == digits_len && k >= 6),
            digits_len == dec_digits(index as nat).len(),
            "0"@ == seq!['0'],
            s@ == Seq::new((k - digits_len) as nat, |i: int| '0'),
        decreases 6 - k,
    {
        s.append("0");
        proof {
            assert(s@ =~= Seq::new((k + 1 - digits_len) as nat, |i: int| '0'));
        }
        k = k + 1;
    }
    s.append(digits.as_str());
    s.append(".");
    s.append(ext);
    proof {
        if dec_digits(index as nat).len() >= 6 {
            assert(Seq::new(0, |i: int| '0') =~= Seq::<char>::empty());
            assert(s@ =~= padded_index(index as nat) + "."@ + ext@);
        } else {
            assert(s@ =~= padded_index(index as nat) + "."@ + ext@);
        }
    }
    s
}

/// The full path of frame `index` inside `folder`.
pub fn frame_file_path(folder: &str, index: usize, ext: &str) -> (r: String)
    ensures
        r@ == folder@ + "/"@ + padded_index(index as nat) + "."@ + ext@,
{
    let name = frame_file_name(index, ext);
    let r = String::from_str(folder).concat("/").concat(name.as_str());
    assert(r@ =~= folder@ + "/"@ + padded_index(index as nat) + "."@ + ext@);
    r
}

} // verus!
