use vstd::prelude::*;
use vstd::utf8::encode_utf8;
use crate::path::{normal_components, parse_relative, PathError, RelativePath, SEPARATOR};
use crate::outputs::PathView;

verus! {

/// A byte allowed in a cache name: a lower-case ASCII letter, a digit or `_`.
pub open spec fn cache_name_byte(b: u8) -> bool {
    (97 <= b <= 122) || (48 <= b <= 57) || b == 95
}

/// A cache name is not empty and holds only allowed bytes.
pub open spec fn valid_cache_name(name: Seq<u8>) -> bool {
    name.len() > 0 && forall|i: int| 0 <= i < name.len() ==> cache_name_byte(#[trigger] name[i])
}

/// Why a named cache cannot be mounted.
#[derive(Clone, Copy, Debug, PartialEq, Eq, Structural)]
pub enum CacheError {
    /// The name is empty or holds a byte outside `[a-z0-9_]`.
    InvalidCacheName,
    /// The mount point is absolute, leaves the sandbox, or is the sandbox root.
    InvalidCacheDestination,
}

/// The logical name of an append-only cache.
#[derive(Debug)]
pub struct CacheName {
    name: Vec<u8>,
}

impl View for CacheName {
    type V = Seq<u8>;

    closed spec fn view(&self) -> Seq<u8> {
        self.name@
    }
}

impl CacheName {
    /// Checks a cache name; its bytes are kept.
    pub fn new(name: String) -> (r: Result<CacheName, CacheError>)
        ensures
            match r {
                Ok(n) => valid_cache_name(encode_utf8(name@)) && n@ == encode_utf8(name@),
                Err(e) => !valid_cache_name(encode_utf8(name@)) && e == CacheError::InvalidCacheName,
            },
    {
        let bytes = name.as_str().as_bytes();
        assert(bytes@ == encode_utf8(name@));
        if bytes.len() == 0 {
            return Err(CacheError::InvalidCacheName);
        }
        let mut i: usize = 0;
        while i < bytes.len()
            invariant
                i <= bytes@.len(),
                bytes@ == encode_utf8(name@),
                forall|j: int| 0 <= j < i ==> cache_name_byte(#[trigger] bytes@[j]),
            decreases bytes.len() - i,
        {
            let b = bytes[i];
            if !((97 <= b && b <= 122) || (48 <= b && b <= 57) || b == 95) {
                assert(!cache_name_byte(bytes@[i as int]));
                return Err(CacheError::InvalidCacheName);
            }
            i = i + 1;
        }
        Ok(CacheName { name: vstd::slice::slice_to_vec(bytes) })
    }

    /// The name's bytes.
    pub fn as_bytes(&self) -> (r: &Vec<u8>)
        ensures
            r@ == self@,
    {
        &self.name
    }
}

/// Where a cache appears inside the sandbox.
#[derive(Debug)]
pub struct CacheDest {
    path: RelativePath,
}

impl View for CacheDest {
    type V = PathView;

    closed spec fn view(&self) -> PathView {
        self.path@
    }
}

/// A mount point is a path below the sandbox root, not the root itself.
pub open spec fn valid_cache_dest(dest: Seq<u8>) -> bool {
    match parse_relative(dest) {
        Ok(cs) => cs.len() > 0,
        Err(_) => false,
    }
}

impl CacheDest {
    /// Checks a mount point for a cache.
    pub fn new(dest: String) -> (r: Result<CacheDest, CacheError>)
        ensures
            match r {
                Ok(d) => valid_cache_dest(encode_utf8(dest@)) && Ok::<PathView, PathError>(d@)
                    == parse_relative(encode_utf8(dest@)) && normal_components(d@),
                Err(e) => !valid_cache_dest(encode_utf8(dest@)) && e
                    == CacheError::InvalidCacheDestination,
            },
    {
        match RelativePath::from_bytes(dest.as_str().as_bytes()) {
            Ok(path) => {
                if path.components.len() == 0 {
                    Err(CacheError::InvalidCacheDestination)
                } else {
                    Ok(CacheDest { path })
                }
            },
            Err(_) => Err(CacheError::InvalidCacheDestination),
        }
    }

    /// The mount point's path.
    pub fn path(&self) -> (r: &RelativePath)
        ensures
            r@ == self@,
    {
        &self.path
    }
}

/// The host directory that holds the cache `name` under `root`.
pub open spec fn host_dir_of(root: Seq<u8>, name: Seq<u8>) -> Seq<u8> {
    root + seq![SEPARATOR] + name
}

/// The stable place outside any sandbox where named caches live.
#[derive(Debug)]
pub struct NamedCaches {
    pub root: Vec<u8>,
}

impl NamedCaches {
    /// Caches kept under the host directory `root`.
    pub fn new(root: Vec<u8>) -> (r: NamedCaches)
        ensures
            r.root@ == root@,
    {
        NamedCaches { root }
    }

    /// The host directory of a cache; the same name always gives the same
    /// directory, so what one process wrote there the next one sees.
    pub fn host_dir(&self, name: &CacheName) -> (r: Vec<u8>)
        ensures
            r@ == host_dir_of(self.root@, name@),
    {
        let mut out = self.root.clone();
        out.push(SEPARATOR);
        let mut i: usize = 0;
        let ghost start = out@;
        while i < name.name.len()
            invariant
                i <= name@.len(),
                start == self.root@ + seq![SEPARATOR],
                out@ == start + name@.take(i as int),
            decreases name.name.len() - i,
        {
            out.push(name.name[i]);
            assert(name@.take(i + 1) =~= name@.take(i as int).push(name@[i as int]));
            i = i + 1;
        }
        assert(name@.take(name@.len() as int) =~= name@);
        assert(out@ =~= host_dir_of(self.root@, name@));
        out
    }
}

/// Two mounts of caches with the same name, in any two executions, reach the
/// same host directory; caches with different names never share one.
pub proof fn lemma_host_dir_stable(root: Seq<u8>, a: Seq<u8>, b: Seq<u8>)
    ensures
        (host_dir_of(root, a) == host_dir_of(root, b)) <==> (a == b),
{
    if host_dir_of(root, a) == host_dir_of(root, b) {
        let n = root.len() as int + 1;
        assert(host_dir_of(root, a).subrange(n, host_dir_of(root, a).len() as int) =~= a);
        assert(host_dir_of(root, b).subrange(n, host_dir_of(root, b).len() as int) =~= b);
    }
}

} // verus!
