//! The file catalog: resolves a logical file identifier to byte content,
//! trying the cache first, then a package root, then the active root, and
//! caches every successful resolution.
//!
//! The catalog itself never touches storage: it plans each resolution as
//! a path to read, and classifies and caches the outcome that the caller
//! reports back.
use vstd::prelude::*;
use crate::errors::{FileError, ReadOutcome};
use crate::text::{dec_digits, dec_string};

verus! {

/// Identifies one package: a namespace, a name, and a version.
pub struct PackageSpec {
    pub namespace: String,
    pub name: String,
    pub major: u32,
    pub minor: u32,
    pub patch: u32,
}

/// The mathematical value of a `PackageSpec`.
pub ghost struct PackageView {
    pub namespace: Seq<char>,
    pub name: Seq<char>,
    pub major: u32,
    pub minor: u32,
    pub patch: u32,
}

impl View for PackageSpec {
    type V = PackageView;

    open spec fn view(&self) -> PackageView {
        PackageView {
            namespace: self.namespace@,
            name: self.name@,
            major: self.major,
            minor: self.minor,
            patch: self.patch,
        }
    }
}

/// Identifies a logical file: an optional package specifier and a virtual
/// path, kept as its already-split segments.
pub struct FileId {
    pub package: Option<PackageSpec>,
    pub segments: Vec<String>,
}

/// The mathematical value of a `FileId`.
pub ghost struct IdView {
    pub package: Option<PackageView>,
    pub segments: Seq<Seq<char>>,
}

impl View for FileId {
    type V = IdView;

    open spec fn view(&self) -> IdView {
        IdView {
            package: match self.package {
                Option::Some(p) => Option::Some(p@),
                Option::None => Option::None,
            },
            segments: self.segments@.map_values(|s: String| s@),
        }
    }
}

/// Compares two pieces of text for equality.
pub fn str_eq(a: &str, b: &str) -> (r: bool)
    ensures
        r == (a@ == b@),
{
    let a_owned = a.to_owned();
    let b_owned = b.to_owned();
    a_owned == b_owned
}

impl PackageSpec {
    /// An equal-valued copy.
    pub fn duplicate(&self) -> (r: PackageSpec)
        ensures
            r@ == self@,
    {
        PackageSpec {
            namespace: self.namespace.clone(),
            name: self.name.clone(),
            major: self.major,
            minor: self.minor,
            patch: self.patch,
        }
    }

    /// The expected installation directory of this package, relative to
    /// the host's data or cache directory.
    pub fn expected_dir(&self) -> (r: String)
        ensures
            r@ == package_dir(self@),
    {
        let mut s = "typst/packages/".to_owned();
        s.append(self.namespace.as_str());
        s.append("/");
        s.append(self.name.as_str());
        s.append("/");
        let major = dec_string(self.major as u64);
        s.append(major.as_str());
        s.append(".");
        let minor = dec_string(self.minor as u64);
        s.append(minor.as_str());
        s.append(".");
        let patch = dec_string(self.patch as u64);
        s.append(patch.as_str());
        proof {
            reveal_strlit("/");
            reveal_strlit(".");
            assert(s@ =~= package_dir(self@));
        }
        s
    }
}

impl FileId {
    /// A file identifier with no package, addressing the given path
    /// segments under the active root.
    pub fn rootless(segments: Vec<String>) -> (r: FileId)
        ensures
            r@.package is None,
            r@.segments == segments@.map_values(|s: String| s@),
    {
        FileId { package: Option::None, segments }
    }

    /// Whether two identifiers address the same logical file.
    pub fn same_as(&self, other: &FileId) -> (r: bool)
        ensures
            r == (self@ == other@),
    {
        let pkg_eq: bool = match (&self.package, &other.package) {
            (Option::Some(a), Option::Some(b)) => {
                a.namespace == b.namespace && a.name == b.name && a.major == b.major
                    && a.minor == b.minor && a.patch == b.patch
            },
            (Option::None, Option::None) => true,
            _ => false,
        };
        if !pkg_eq {
            return false;
        }
        if self.segments.len() != other.segments.len() {
            proof {
                assert(self@.segments.len() != other@.segments.len());
            }
            return false;
        }
        let n = self.segments.len();
        let mut i: usize = 0;
        while i < n
            invariant
                n == self.segments.len() == other.segments.len(),
                i <= n,
                pkg_eq,
                self@.package == other@.package,
                forall|j: int| 0 <= j < i ==> self@.segments[j] == other@.segments[j],
            decreases n - i,
        {
            if !(self.segments[i] == other.segments[i]) {
                proof {
                    assert(self@.segments[i as int] != other@.segments[i as int]);
                }
                return false;
            }
            i += 1;
        }
        proof {
            assert(self@.segments =~= other@.segments);
        }
        true
    }

    /// An equal-valued copy.
    pub fn duplicate(&self) -> (r: FileId)
        ensures
            r@ == self@,
    {
        let package = match &self.package {
            Option::Some(p) => Option::Some(p.duplicate()),
            Option::None => Option::None,
        };
        let mut segments: Vec<String> = Vec::new();
        let n = self.segments.len();
        let mut i: usize = 0;
        while i < n
            invariant
                n == self.segments.len(),
                i <= n,
                segments@.len() == i,
                forall|j: int| 0 <= j < i ==> segments@[j]@ == self.segments@[j]@,
            decreases n - i,
        {
            segments.push(self.segments[i].clone());
            i += 1;
        }
        let r = FileId { package, segments };
        proof {
            assert(r@.segments =~= self@.segments);
        }
        r
    }
}

/// One virtual path joined with `/` separators and a leading `/`.
pub open spec fn path_of(segments: Seq<Seq<char>>) -> Seq<char>
    decreases segments.len(),
{
    if segments.len() == 0 {
        Seq::empty()
    } else {
        path_of(segments.drop_last()) + seq!['/'] + segments.last()
    }
}

/// The expected installation directory of a package, relative to the
/// host's data or cache directory.
pub open spec fn package_dir(p: PackageView) -> Seq<char> {
    "typst/packages/"@ + p.namespace + seq!['/'] + p.name + seq!['/'] + dec_digits(
        p.major as nat,
    ) + seq!['.'] + dec_digits(p.minor as nat) + seq!['.'] + dec_digits(p.patch as nat)
}

/// Whether a path stays inside the root it is resolved against: a parent
/// segment may not climb above the root. Empty and `.` segments are
/// inert; any other segment descends one level.
pub open spec fn stays_within_root(segments: Seq<Seq<char>>, depth: nat) -> bool
    decreases segments.len(),
{
    if segments.len() == 0 {
        true
    } else if segments[0] == ".."@ {
        depth > 0 && stays_within_root(segments.drop_first(), (depth - 1) as nat)
    } else if segments[0] == "."@ || segments[0].len() == 0 {
        stays_within_root(segments.drop_first(), depth)
    } else {
        stays_within_root(segments.drop_first(), depth + 1)
    }
}

/// How one resolution proceeds: already cached, a path that must be read,
/// or a failure decided without any read.
pub enum ResolvePlan {
    /// The bytes were already cached.
    Cached(Vec<u8>),
    /// The caller should read this path and report the outcome back
    /// through `resolve_apply`.
    Read(String),
    /// The resolution failed outright.
    Fail(FileError),
}

/// The file catalog: an active root, the designated main file, and the
/// cache of every resolution so far.
pub struct FileStore {
    /// The active root directory that rootless identifiers resolve
    /// against.
    pub root: String,
    /// The designated main document.
    pub main: FileId,
    /// Cached content, one entry per distinct identifier.
    pub entries: Vec<(FileId, Vec<u8>)>,
}

impl FileStore {
    /// Each identifier is cached at most once.
    pub open spec fn wf(self) -> bool {
        forall|i: int, j: int|
            0 <= i < j < self.entries.len() ==> #[trigger] self.entries[i].0@ != #[trigger] self.entries[j].0@
    }

    /// Whether content is cached under this identifier.
    pub open spec fn has(self, k: IdView) -> bool {
        exists|i: int| 0 <= i < self.entries.len() && #[trigger] self.entries[i].0@ == k
    }

    /// The cached content under this identifier.
    pub open spec fn at(self, k: IdView) -> Seq<u8> {
        let i = choose|i: int| 0 <= i < self.entries.len() && #[trigger] self.entries[i].0@ == k;
        self.entries[i].1@
    }

    proof fn lemma_entry_is_at(self, k: IdView, i: int)
        requires
            self.wf(),
            0 <= i < self.entries.len(),
            self.entries[i].0@ == k,
        ensures
            self.has(k),
            self.at(k) == self.entries[i].1@,
    {
        assert(self.has(k));
        let j = choose|j: int|
            0 <= j < self.entries.len() && #[trigger] self.entries[j].0@ == k;
        if i < j {
            assert(self.entries[i].0@ != self.entries[j].0@);
        } else if j < i {
            assert(self.entries[j].0@ != self.entries[i].0@);
        }
    }

    /// A fresh catalog over the given root with the given main file and
    /// an empty cache.
    pub fn new(root: String, main: FileId) -> (r: FileStore)
        ensures
            r.wf(),
            r.root@ == root@,
            r.main@ == main@,
            forall|k: IdView| !r.has(k),
    {
        FileStore { root, main, entries: Vec::new() }
    }

    fn find(&self, id: &FileId) -> (r: Option<usize>)
        ensures
            match r {
                Option::Some(i) => i < self.entries.len() && self.entries[i as int].0@ == id@,
                Option::None => !self.has(id@),
            },
    {
        let n = self.entries.len();
        let mut i: usize = 0;
        while i < n
            invariant
                n == self.entries.len(),
                i <= n,
                forall|j: int| 0 <= j < i ==> #[trigger] self.entries[j].0@ != id@,
            decreases n - i,
        {
            if self.entries[i].0.same_as(id) {
                return Option::Some(i);
            }
            i += 1;
        }
        Option::None
    }

    /// The cached bytes under an identifier, if resolution already
    /// succeeded for it once.
    pub fn cached(&self, id: &FileId) -> (r: Option<Vec<u8>>)
        requires
            self.wf(),
        ensures
            match r {
                Option::Some(b) => self.has(id@) && b@ == self.at(id@),
                Option::None => !self.has(id@),
            },
    {
        match self.find(id) {
            Option::Some(i) => {
                let b = self.entries[i].1.clone();
                proof {
                    assert(b@ =~= self.entries[i as int].1@);
                    self.lemma_entry_is_at(id@, i as int);
                }
                Option::Some(b)
            },
            Option::None => Option::None,
        }
    }

    /// Caches `bytes` under `id`, replacing what was cached there before,
    /// and leaving every other identifier's content unchanged.
    pub fn put(&mut self, id: FileId, bytes: Vec<u8>)
        requires
            old(self).wf(),
        ensures
            final(self).wf(),
            final(self).root@ == old(self).root@,
            final(self).main@ == old(self).main@,
            final(self).has(id@),
            final(self).at(id@) == bytes@,
            forall|k: IdView|
                k != id@ ==> #[trigger] final(self).has(k) == old(self).has(k),
            forall|k: IdView|
                k != id@ && old(self).has(k) ==> #[trigger] final(self).at(k) == old(self).at(k),
    {
        let ghost pre = *self;
        match self.find(&id) {
            Option::Some(i) => {
                let ghost kv = id@;
                self.entries.set(i, (id, bytes));
                proof {
                    assert forall|a: int, b: int|
                        0 <= a < b < self.entries.len() implies #[trigger] self.entries[a].0@
                        != #[trigger] self.entries[b].0@ by {
                        assert(pre.entries[a].0@ != pre.entries[b].0@);
                        assert(pre.entries[i as int].0@ == kv);
                    }
                    self.lemma_entry_is_at(kv, i as int);
                    assert forall|k: IdView| k != kv implies #[trigger] self.has(k)
                        == pre.has(k) by {
                        if pre.has(k) {
                            let j = choose|j: int|
                                0 <= j < pre.entries.len() && #[trigger] pre.entries[j].0@ == k;
                            assert(j != i);
                            assert(self.entries[j].0@ == k);
                        }
                        if self.has(k) {
                            let j = choose|j: int|
                                0 <= j < self.entries.len() && #[trigger] self.entries[j].0@
                                    == k;
                            assert(j != i);
                            assert(pre.entries[j].0@ == k);
                        }
                    }
                    assert forall|k: IdView| k != kv && pre.has(k) implies #[trigger] self.at(k)
                        == pre.at(k) by {
                        let j = choose|j: int|
                            0 <= j < pre.entries.len() && #[trigger] pre.entries[j].0@ == k;
                        assert(j != i);
                        assert(self.entries[j].0@ == k);
                        self.lemma_entry_is_at(k, j);
                        pre.lemma_entry_is_at(k, j);
                    }
                }
            },
            Option::None => {
                let ghost kv = id@;
                let ghost n = self.entries.len() as int;
                self.entries.push((id, bytes));
                proof {
                    assert forall|a: int, b: int|
                        0 <= a < b < self.entries.len() implies #[trigger] self.entries[a].0@
                        != #[trigger] self.entries[b].0@ by {
                        if b < n {
                            assert(pre.entries[a].0@ != pre.entries[b].0@);
                        } else {
                            assert(self.entries[b].0@ == kv);
                            assert(pre.entries[a].0@ == self.entries[a].0@);
                            assert(!pre.has(kv));
                        }
                    }
                    self.lemma_entry_is_at(kv, n);
                    assert forall|k: IdView| k != kv implies #[trigger] self.has(k)
                        == pre.has(k) by {
                        if pre.has(k) {
                            let j = choose|j: int|
                                0 <= j < pre.entries.len() && #[trigger] pre.entries[j].0@ == k;
                            assert(self.entries[j].0@ == k);
                        }
                        if self.has(k) {
                            let j = choose|j: int|
                                0 <= j < self.entries.len() && #[trigger] self.entries[j].0@
                                    == k;
                            assert(j != n);
                            assert(pre.entries[j].0@ == k);
                        }
                    }
                    assert forall|k: IdView| k != kv && pre.has(k) implies #[trigger] self.at(k)
                        == pre.at(k) by {
                        let j = choose|j: int|
                            0 <= j < pre.entries.len() && #[trigger] pre.entries[j].0@ == k;
                        assert(self.entries[j].0@ == k);
                        self.lemma_entry_is_at(k, j);
                        pre.lemma_entry_is_at(k, j);
                    }
                }
            },
        }
    }

    /// Plans one resolution: a cache hit is answered at once; a file of a
    /// package whose installation directory has not been found (the
    /// caller probes for `expected_dir` and passes the base directory it
    /// found, if any) fails with `NotFound`; a path that escapes its root
    /// fails with `AccessDenied`; anything else becomes a path for the
    /// caller to read.
    pub fn resolve_plan(&self, id: &FileId, package_base: Option<String>) -> (r: ResolvePlan)
        requires
            self.wf(),
        ensures
            match r {
                ResolvePlan::Cached(b) => self.has(id@) && b@ == self.at(id@),
                ResolvePlan::Read(p) => {
                    &&& !self.has(id@)
                    &&& stays_within_root(id@.segments, 0)
                    &&& match id@.package {
                        Option::Some(_) => package_base is Some && p@ == package_base->0@
                            + path_of(id@.segments),
                        Option::None => p@ == self.root@ + path_of(id@.segments),
                    }
                },
                ResolvePlan::Fail(e) => {
                    &&& !self.has(id@)
                    &&& match e {
                        FileError::NotFound(d) => id@.package matches Option::Some(pv)
                            && package_base is None && d@ == package_dir(pv),
                        FileError::AccessDenied => !stays_within_root(id@.segments, 0)
                            && (id@.package is None || package_base is Some),
                        _ => false,
                    }
                },
            },
    {
        if let Option::Some(b) = self.cached(id) {
            return ResolvePlan::Cached(b);
        }
        let base: String = match &id.package {
            Option::Some(p) => {
                match package_base {
                    Option::Some(b) => b,
                    Option::None => {
                        return ResolvePlan::Fail(FileError::NotFound(p.expected_dir()));
                    },
                }
            },
            Option::None => self.root.clone(),
        };
        if !path_stays_within(&id.segments) {
            return ResolvePlan::Fail(FileError::AccessDenied);
        }
        let mut p = base;
        let joined = joined_path(&id.segments);
        p.append(joined.as_str());
        ResolvePlan::Read(p)
    }

    /// Classifies the outcome of the read that a plan asked for, caching
    /// the bytes on success; `path` is the path that was read, reported
    /// inside `NotFound`.
    pub fn resolve_apply(&mut self, id: &FileId, outcome: ReadOutcome, path: String) -> (r:
        Result<Vec<u8>, FileError>)
        requires
            old(self).wf(),
        ensures
            final(self).wf(),
            final(self).root@ == old(self).root@,
            final(self).main@ == old(self).main@,
            match outcome {
                ReadOutcome::Success(b) => {
                    &&& r matches Result::Ok(out) && out@ == b@
                    &&& final(self).has(id@)
                    &&& final(self).at(id@) == b@
                    &&& forall|k: IdView|
                        k != id@ ==> #[trigger] final(self).has(k) == old(self).has(k)
                    &&& forall|k: IdView|
                        k != id@ && old(self).has(k) ==> #[trigger] final(self).at(k) == old(
                            self,
                        ).at(k)
                },
                ReadOutcome::Missing => r == Result::<Vec<u8>, FileError>::Err(
                    FileError::NotFound(path),
                ) && *final(self) == *old(self),
                ReadOutcome::Forbidden => r == Result::<Vec<u8>, FileError>::Err(
                    FileError::AccessDenied,
                ) && *final(self) == *old(self),
                ReadOutcome::Failed(d) => r == Result::<Vec<u8>, FileError>::Err(
                    FileError::Other(d),
                ) && *final(self) == *old(self),
            },
    {
        match outcome {
            ReadOutcome::Success(b) => {
                let out = b.clone();
                proof {
                    assert(out@ =~= b@);
                }
                self.put(id.duplicate(), b);
                Result::Ok(out)
            },
            ReadOutcome::Missing => Result::Err(FileError::NotFound(path)),
            ReadOutcome::Forbidden => Result::Err(FileError::AccessDenied),
            ReadOutcome::Failed(d) => Result::Err(FileError::Other(d)),
        }
    }
}

/// Joins already-split path segments with `/` separators, with a leading
/// separator.
pub fn joined_path(segments: &Vec<String>) -> (r: String)
    ensures
        r@ == path_of(segments@.map_values(|s: String| s@)),
{
    let ghost view = segments@.map_values(|s: String| s@);
    let mut r = String::new();
    let n = segments.len();
    let mut i: usize = 0;
    while i < n
        invariant
            n == segments.len(),
            i <= n,
            view == segments@.map_values(|s: String| s@),
            r@ == path_of(view.take(i as int)),
        decreases n - i,
    {
        r.append("/");
        r.append(segments[i].as_str());
        proof {
            reveal_strlit("/");
            assert(view.take(i + 1).drop_last() =~= view.take(i as int));
            assert(view.take(i + 1).last() == view[i as int]);
            assert(r@ =~= path_of(view.take(i + 1)));
        }
        i += 1;
    }
    proof {
        assert(view.take(n as int) =~= view);
    }
    r
}

/// Decides whether a path stays inside the root it is resolved against.
pub fn path_stays_within(segments: &Vec<String>) -> (r: bool)
    ensures
        r == stays_within_root(segments@.map_values(|s: String| s@), 0),
{
    let ghost view = segments@.map_values(|s: String| s@);
    let n = segments.len();
    let mut depth: usize = 0;
    let mut i: usize = 0;
    proof {
        assert(view.skip(0) =~= view);
    }
    while i < n
        invariant
            n == segments.len(),
            i <= n,
            depth <= i,
            view == segments@.map_values(|s: String| s@),
            stays_within_root(view, 0) == stays_within_root(
                view.skip(i as int),
                depth as nat,
            ),
        decreases n - i,
    {
        proof {
            assert(view.skip(i as int)[0] == view[i as int]);
            assert(view.skip(i as int).drop_first() =~= view.skip(i + 1));
        }
        let seg = &segments[i];
        if str_eq(seg.as_str(), "..") {
            if depth == 0 {
                return false;
            }
            depth -= 1;
        } else if str_eq(seg.as_str(), ".") || seg.as_str().unicode_len() == 0 {
        } else {
            depth += 1;
        }
        i += 1;
    }
    proof {
        assert(view.skip(n as int).len() == 0);
    }
    true
}

/// The identifier of the synthesized main document under the virtual
/// root.
pub open spec fn main_id_view() -> IdView {
    IdView { package: Option::None, segments: seq!["main.typ"@] }
}

/// The identifier of a virtual file with the given name.
pub open spec fn virtual_id_view(name: Seq<char>) -> IdView {
    IdView { package: Option::None, segments: seq![name] }
}

impl FileStore {
    /// Switches the active root to the virtual root, makes `main_text`
    /// the main document, and installs every extra file under its own
    /// identifier. Entries cached under other roots are not purged: they
    /// stay addressable by their original identifiers.
    pub fn replace_all(&mut self, main_text: String, extra: Vec<(String, Vec<u8>)>)
        requires
            old(self).wf(),
            forall|i: int, j: int|
                0 <= i < j < extra.len() ==> #[trigger] extra[i].0@ != #[trigger] extra[j].0@,
        ensures
            final(self).wf(),
            final(self).root@ == "/virtual"@,
            final(self).main@ == main_id_view(),
            final(self).has(main_id_view()),
            (forall|i: int| 0 <= i < extra.len() ==> #[trigger] extra[i].0@ != "main.typ"@)
                ==> final(self).at(main_id_view()) == vstd::utf8::encode_utf8(main_text@),
            forall|i: int|
                0 <= i < extra.len() ==> #[trigger] final(self).has(virtual_id_view(extra[i].0@))
                    && final(self).at(virtual_id_view(extra[i].0@)) == extra[i].1@,
            forall|k: IdView|
                k != main_id_view() && (forall|i: int|
                    0 <= i < extra.len() ==> k != virtual_id_view(#[trigger] extra[i].0@))
                    ==> #[trigger] final(self).has(k) == old(self).has(k) && (old(self).has(k)
                    ==> final(self).at(k) == old(self).at(k)),
    {
        let ghost pre = *old(self);
        self.root = "/virtual".to_owned();
        let main_id = FileId::rootless(vec!["main.typ".to_owned()]);
        let main_bytes = main_text.as_str().as_bytes_vec();
        self.main = main_id.duplicate();
        proof {
            assert(main_id@.segments =~= main_id_view().segments);
            assert(main_id@ == main_id_view());
        }
        self.put(main_id, main_bytes);
        let n = extra.len();
        let mut i: usize = 0;
        while i < n
            invariant
                n == extra.len(),
                i <= n,
                forall|a: int, b: int|
                    0 <= a < b < extra.len() ==> #[trigger] extra[a].0@ != #[trigger] extra[b].0@,
                self.wf(),
                self.root@ == "/virtual"@,
                self.main@ == main_id_view(),
                self.has(main_id_view()),
                (forall|j: int| 0 <= j < i ==> #[trigger] extra[j].0@ != "main.typ"@)
                    ==> self.at(main_id_view()) == vstd::utf8::encode_utf8(main_text@),
                forall|j: int|
                    0 <= j < i ==> #[trigger] self.has(virtual_id_view(extra[j].0@))
                        && self.at(virtual_id_view(extra[j].0@)) == extra[j].1@,
                forall|k: IdView|
                    k != main_id_view() && (forall|j: int|
                        0 <= j < extra.len() ==> k != virtual_id_view(#[trigger] extra[j].0@))
                        ==> #[trigger] self.has(k) == pre.has(k) && (pre.has(k) ==> self.at(k)
                        == pre.at(k)),
            decreases n - i,
        {
            let name = extra[i].0.clone();
            let bytes = extra[i].1.clone();
            let id = FileId::rootless(vec![name]);
            proof {
                assert(bytes@ =~= extra[i as int].1@);
                assert(id@.segments =~= virtual_id_view(extra[i as int].0@).segments);
                assert(id@ == virtual_id_view(extra[i as int].0@));
            }
            self.put(id, bytes);
            proof {
                let ghost cur = virtual_id_view(extra[i as int].0@);
                assert(cur.segments[0] == extra[i as int].0@);
                assert forall|j: int| 0 <= j < i implies virtual_id_view(
                    #[trigger] extra[j].0@,
                ) != cur by {
                    assert(virtual_id_view(extra[j].0@).segments[0] == extra[j].0@);
                }
                assert(main_id_view().segments[0] == "main.typ"@);
                if extra[i as int].0@ != "main.typ"@ {
                    assert(cur != main_id_view());
                }
            }
            i += 1;
        }
        proof {
            assert forall|j: int| 0 <= j < extra.len() implies #[trigger] self.has(
                virtual_id_view(extra[j].0@),
            ) by {}
            assert forall|j: int| 0 <= j < extra.len() implies #[trigger] self.at(
                virtual_id_view(extra[j].0@),
            ) == extra[j].1@ by {
                assert(self.has(virtual_id_view(extra[j].0@)));
            }
        }
    }
}

} // verus!
