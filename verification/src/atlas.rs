use vstd::prelude::*;

verus! {

/// Size and mip metadata of a registered texture.
///
/// Descriptor textures carry this explicitly because their size is fixed at
/// creation and cannot be derived from the window; window-sized resources
/// report the current window size with a single mip level.
#[derive(Clone, Copy, PartialEq, Eq, Debug)]
pub struct TextureInfo {
    pub size: (u32, u32, u32),
    pub mip_levels: u32,
}

/// One registered GPU resource. The handle type `R` is opaque to the
/// registry; the process that owns the graphics device decides what it is.
pub enum TextureType<R> {
    /// A double-buffered pair: each frame one texture is read (the previous
    /// frame's output) and the other is written, alternating by the global
    /// frame parity.
    TextureSwapChain(R, R),
    /// One window-sized texture, recreated on every resize.
    SingleTexture(R),
    /// One texture created from an explicit descriptor, independent of the
    /// window size; untouched by resize.
    DescriptorTexture(R, TextureInfo),
    /// A raw GPU buffer; untouched by resize.
    Buffer(R),
}

/// The index (0 or 1) of the swap texture read during frame `frame_count`.
pub open spec fn spec_swap_read_slot(frame_count: u64) -> int {
    frame_count as int % 2
}

/// The index (0 or 1) of the swap texture written during frame `frame_count`.
pub open spec fn spec_swap_write_slot(frame_count: u64) -> int {
    1 - frame_count as int % 2
}

/// Ping-pong law: within one frame, the read side and the write side of a
/// swap pair are never the same physical texture, whatever the parity.
pub proof fn lemma_swap_ping_pong(frame_count: u64)
    ensures
        spec_swap_read_slot(frame_count) != spec_swap_write_slot(frame_count),
{
}

/// Alternation law: the slot one frame writes is the slot the next frame
/// reads, so each frame consumes what the previous frame produced.
pub proof fn lemma_swap_alternates(frame_count: u64)
    requires
        frame_count < u64::MAX,
    ensures
        spec_swap_read_slot((frame_count + 1) as u64) == spec_swap_write_slot(frame_count),
{
}

/// The named registry of GPU resources.
///
/// Keys are unique strings; each maps to a texture, a swap pair, a
/// descriptor texture or a buffer. The registry also owns the default
/// sampler handle and remembers the current window size, which is what
/// window-sized resources report from `get_info`.
pub struct TextureAtlas<R> {
    textures: Vec<(String, TextureType<R>)>,
    sampler: R,
    window_size: (u32, u32),
}

impl<R> TextureAtlas<R> {
    /// Well-formed: no key occurs twice.
    pub closed spec fn wf(self) -> bool {
        forall|i: int, j: int|
            0 <= i < j < self.textures@.len() ==> self.textures@[i].0@ != self.textures@[j].0@
    }

    /// The number of registered resources.
    pub closed spec fn spec_len(self) -> nat {
        self.textures@.len()
    }

    /// The current window size, as reported by window-sized resources.
    pub closed spec fn spec_window_size(self) -> (u32, u32) {
        self.window_size
    }

    /// The default sampler handle.
    pub closed spec fn spec_sampler(self) -> R {
        self.sampler
    }

    /// Whether some resource is registered under key `k`.
    pub closed spec fn contains_key(self, k: Seq<char>) -> bool {
        exists|i: int| 0 <= i < self.textures@.len() && self.textures@[i].0@ == k
    }

    /// The position of key `k` in the registry (meaningful only when
    /// `contains_key(k)` holds; unique by well-formedness).
    pub closed spec fn index_of(self, k: Seq<char>) -> int {
        choose|i: int| 0 <= i < self.textures@.len() && self.textures@[i].0@ == k
    }

    /// The resource registered under key `k`, if any.
    pub closed spec fn spec_get(self, k: Seq<char>) -> Option<TextureType<R>> {
        if self.contains_key(k) {
            Some(self.textures@[self.index_of(k)].1)
        } else {
            None
        }
    }

    /// The metadata `get_info` reports for key `k`: descriptor textures
    /// answer with their stored descriptor, window-sized resources with the
    /// current window size, buffers and unknown keys with nothing.
    pub open spec fn spec_get_info(self, k: Seq<char>) -> Option<TextureInfo> {
        match self.spec_get(k) {
            Some(TextureType::TextureSwapChain(_, _)) => Some(
                TextureInfo {
                    size: (self.spec_window_size().0, self.spec_window_size().1, 1),
                    mip_levels: 1,
                },
            ),
            Some(TextureType::SingleTexture(_)) => Some(
                TextureInfo {
                    size: (self.spec_window_size().0, self.spec_window_size().1, 1),
                    mip_levels: 1,
                },
            ),
            Some(TextureType::DescriptorTexture(_, info)) => Some(info),
            Some(TextureType::Buffer(_)) => None,
            None => None,
        }
    }

    /// What every registration method does: key `k` now maps to `t`, every
    /// other key is untouched, and the sampler and window size are kept.
    pub open spec fn registered(pre: Self, post: Self, k: Seq<char>, t: TextureType<R>) -> bool {
        &&& post.spec_get(k) == Some(t)
        &&& forall|k2: Seq<char>| k2 != k ==> post.spec_get(k2) == pre.spec_get(k2)
        &&& post.spec_window_size() == pre.spec_window_size()
        &&& post.spec_sampler() == pre.spec_sampler()
    }

    /// An entry whose key is `k` pins down everything `spec_get(k)` says.
    proof fn lemma_key_index(self, k: Seq<char>, i: int)
        requires
            self.wf(),
            0 <= i < self.textures@.len(),
            self.textures@[i].0@ == k,
        ensures
            self.contains_key(k),
            self.index_of(k) == i,
            self.spec_get(k) == Some(self.textures@[i].1),
    {
        assert(self.contains_key(k));
        let j = self.index_of(k);
        if i != j {
            if i < j {
                assert(self.textures@[i].0@ != self.textures@[j].0@);
            } else {
                assert(self.textures@[j].0@ != self.textures@[i].0@);
            }
        }
    }

    /// An empty registry around a default sampler.
    pub fn new(sampler: R, window_size: (u32, u32)) -> (r: Self)
        ensures
            r.wf(),
            forall|k: Seq<char>| r.spec_get(k) == None::<TextureType<R>>,
            r.spec_window_size() == window_size,
            r.spec_sampler() == sampler,
            r.spec_len() == 0,
    {
        TextureAtlas { textures: Vec::new(), sampler, window_size }
    }

    /// The position of `name` in the registry, if it is a key.
    fn find(&self, name: &str) -> (r: Option<usize>)
        ensures
            match r {
                Some(i) => i < self.textures@.len() && self.textures@[i as int].0@ == name@,
                None => !self.contains_key(name@),
            },
    {
        let n = self.textures.len();
        let mut i: usize = 0;
        while i < n
            invariant
                n == self.textures@.len(),
                i <= n,
                forall|j: int| 0 <= j < i ==> self.textures@[j].0@ != name@,
            decreases n - i,
        {
            if str_eq(self.textures[i].0.as_str(), name) {
                return Some(i);
            }
            i += 1;
        }
        None
    }

    /// Create or replace the entry under `name`. Replacing is always legal:
    /// this is what lets resize-driven recreation re-register a key.
    fn put(&mut self, name: String, t: TextureType<R>)
        requires
            old(self).wf(),
        ensures
            final(self).wf(),
            Self::registered(*old(self), *final(self), name@, t),
    {
        let found = self.find(name.as_str());
        match found {
            Some(i) => {
                self.textures[i] = (name, t);
                proof {
                    let gi = i as int;
                    assert forall|m: int| 0 <= m < self.textures@.len() implies self.textures@[m].0@
                        == old(self).textures@[m].0@ by {}
                    assert(self.wf());
                    self.lemma_key_index(name@, gi);
                    assert forall|k2: Seq<char>| k2 != name@ implies self.spec_get(k2) == old(
                        self,
                    ).spec_get(k2) by {
                        if old(self).contains_key(k2) {
                            let j = old(self).index_of(k2);
                            assert(old(self).textures@[j].0@ == k2);
                            assert(j != gi);
                            self.lemma_key_index(k2, j);
                        } else {
                            assert(!self.contains_key(k2));
                        }
                    }
                }
            },
            None => {
                self.textures.push((name, t));
                proof {
                    let gi = self.textures@.len() - 1;
                    assert forall|m: int| 0 <= m < gi implies self.textures@[m].0@ != name@ by {
                        assert(old(self).textures@[m].0@ != name@);
                    }
                    assert(self.wf());
                    self.lemma_key_index(name@, gi);
                    assert forall|k2: Seq<char>| k2 != name@ implies self.spec_get(k2) == old(
                        self,
                    ).spec_get(k2) by {
                        if old(self).contains_key(k2) {
                            let j = old(self).index_of(k2);
                            assert(old(self).textures@[j].0@ == k2);
                            self.lemma_key_index(k2, j);
                        } else {
                            assert(!self.contains_key(k2));
                        }
                    }
                }
            },
        }
    }

    /// Register a window-sized texture under `name`.
    pub fn register(&mut self, name: &str, texture: R)
        requires
            old(self).wf(),
        ensures
            final(self).wf(),
            Self::registered(*old(self), *final(self), name@, TextureType::SingleTexture(texture)),
    {
        self.put(name.to_owned(), TextureType::SingleTexture(texture));
    }

    /// Register a texture decoded from an image asset: a descriptor entry of
    /// the image's dimensions with a single mip level.
    pub fn register_from_image(&mut self, name: &str, texture: R, width: u32, height: u32)
        requires
            old(self).wf(),
        ensures
            final(self).wf(),
            Self::registered(
                *old(self),
                *final(self),
                name@,
                TextureType::DescriptorTexture(
                    texture,
                    TextureInfo { size: (width, height, 1), mip_levels: 1 },
                ),
            ),
    {
        let info = TextureInfo { size: (width, height, 1), mip_levels: 1 };
        self.put(name.to_owned(), TextureType::DescriptorTexture(texture, info));
    }

    /// Register a double-buffered pair under `name`. `texture_even` is the
    /// side read on even frames and written on odd frames; `texture_odd` the
    /// other way round.
    pub fn register_swapchain(&mut self, name: &str, texture_even: R, texture_odd: R)
        requires
            old(self).wf(),
        ensures
            final(self).wf(),
            Self::registered(
                *old(self),
                *final(self),
                name@,
                TextureType::TextureSwapChain(texture_even, texture_odd),
            ),
    {
        self.put(name.to_owned(), TextureType::TextureSwapChain(texture_even, texture_odd));
    }

    /// Register a texture created from an explicit descriptor, carrying its
    /// metadata since the size cannot be derived from the window.
    pub fn register_from_descriptor(&mut self, name: &str, texture: R, info: TextureInfo)
        requires
            old(self).wf(),
        ensures
            final(self).wf(),
            Self::registered(
                *old(self),
                *final(self),
                name@,
                TextureType::DescriptorTexture(texture, info),
            ),
    {
        self.put(name.to_owned(), TextureType::DescriptorTexture(texture, info));
    }

    /// Register a raw buffer under `name`.
    pub fn register_buffer(&mut self, name: &str, buffer: R)
        requires
            old(self).wf(),
        ensures
            final(self).wf(),
            Self::registered(*old(self), *final(self), name@, TextureType::Buffer(buffer)),
    {
        self.put(name.to_owned(), TextureType::Buffer(buffer));
    }

    /// Record a new window size.
    ///
    /// This changes what window-sized resources report from `get_info` and
    /// leaves every entry untouched; the caller re-registers each
    /// window-sized entry with freshly created textures, following
    /// `resize_plan`.
    pub fn resize(&mut self, new_size: (u32, u32))
        requires
            old(self).wf(),
        ensures
            final(self).wf(),
            final(self).spec_window_size() == new_size,
            final(self).spec_sampler() == old(self).spec_sampler(),
            forall|k: Seq<char>| final(self).spec_get(k) == old(self).spec_get(k),
    {
        self.window_size = new_size;
        proof {
            assert forall|k: Seq<char>| self.spec_get(k) == old(self).spec_get(k) by {
                if old(self).contains_key(k) {
                    let j = old(self).index_of(k);
                    self.lemma_key_index(k, j);
                }
            }
        }
    }

    /// The keys a resize must recreate: every window-sized entry, paired
    /// with whether it is a swap pair. Descriptor and buffer entries are
    /// deliberately absent: they are scene-sized, and recreating them would
    /// destroy volume contents on every window resize.
    pub fn resize_plan(&self) -> (r: Vec<(String, bool)>)
        requires
            self.wf(),
        ensures
            forall|i: int|
                0 <= i < r@.len() ==> (#[trigger] r@[i].1 ==> self.spec_get(r@[i].0@) matches Some(
                    TextureType::TextureSwapChain(_, _),
                )),
            forall|i: int|
                0 <= i < r@.len() ==> (!(#[trigger] r@[i].1) ==> self.spec_get(r@[i].0@) matches Some(
                    TextureType::SingleTexture(_),
                )),
            forall|k: Seq<char>|
                ((#[trigger] self.spec_get(k)) matches Some(TextureType::SingleTexture(_))
                    || self.spec_get(k) matches Some(TextureType::TextureSwapChain(_, _)))
                    ==> exists|i: int| 0 <= i < r@.len() && (#[trigger] r@[i].0)@ == k,
    {
        let n = self.textures.len();
        let mut r: Vec<(String, bool)> = Vec::new();
        let mut i: usize = 0;
        while i < n
            invariant
                self.wf(),
                n == self.textures@.len(),
                i <= n,
                forall|m: int|
                    0 <= m < r@.len() ==> (#[trigger] r@[m].1 ==> self.spec_get(r@[m].0@) matches Some(
                        TextureType::TextureSwapChain(_, _),
                    )),
                forall|m: int|
                    0 <= m < r@.len() ==> (!(#[trigger] r@[m].1) ==> self.spec_get(
                        r@[m].0@,
                    ) matches Some(TextureType::SingleTexture(_))),
                forall|j: int|
                    0 <= j < i && ((#[trigger] self.textures@[j].1) matches TextureType::SingleTexture(_)
                        || self.textures@[j].1 matches TextureType::TextureSwapChain(_, _)) ==> exists|m: int|
                        0 <= m < r@.len() && (#[trigger] r@[m].0)@ == self.textures@[j].0@,
            decreases n - i,
        {
            proof {
                self.lemma_key_index(self.textures@[i as int].0@, i as int);
            }
            let ghost pre_r = r@;
            let entry = &self.textures[i];
            match &entry.1 {
                TextureType::TextureSwapChain(_, _) => {
                    let key = entry.0.clone();
                    r.push((key, true));
                },
                TextureType::SingleTexture(_) => {
                    let key = entry.0.clone();
                    r.push((key, false));
                },
                TextureType::DescriptorTexture(_, _) => {},
                TextureType::Buffer(_) => {},
            }
            proof {
                assert forall|j: int|
                    0 <= j < i + 1 && ((#[trigger] self.textures@[j].1) matches TextureType::SingleTexture(_)
                        || self.textures@[j].1 matches TextureType::TextureSwapChain(_, _)) implies exists|m: int|
                        0 <= m < r@.len() && (#[trigger] r@[m].0)@ == self.textures@[j].0@ by {
                    if j < i {
                        let m = choose|m: int|
                            0 <= m < pre_r.len() && (#[trigger] pre_r[m].0)@ == self.textures@[j].0@;
                        assert(r@[m].0@ == self.textures@[j].0@);
                    } else {
                        assert(r@[r@.len() - 1].0@ == self.textures@[j].0@);
                    }
                }
            }
            i += 1;
        }
        proof {
            assert forall|k: Seq<char>|
                ((#[trigger] self.spec_get(k)) matches Some(TextureType::SingleTexture(_))
                    || self.spec_get(k) matches Some(TextureType::TextureSwapChain(_, _)))
                    implies exists|m: int| 0 <= m < r@.len() && (#[trigger] r@[m].0)@ == k by {
                let j = self.index_of(k);
                assert(self.textures@[j].0@ == k);
            }
        }
        r
    }

    /// The texture behind `name` this frame: a swap pair resolves to its
    /// "current" side — the write target of frame `frame_count`, the same
    /// texture `get_view_swapchain` hands out as its second component.
    /// Buffers and unknown keys answer nothing.
    pub fn get(&self, name: &str, frame_count: u64) -> (r: Option<&R>)
        requires
            self.wf(),
        ensures
            match self.spec_get(name@) {
                Some(TextureType::TextureSwapChain(a, b)) => r matches Some(t) && *t == (
                if spec_swap_write_slot(frame_count) == 0 {
                    a
                } else {
                    b
                }),
                Some(TextureType::SingleTexture(a)) => r matches Some(t) && *t == a,
                Some(TextureType::DescriptorTexture(a, _)) => r matches Some(t) && *t == a,
                Some(TextureType::Buffer(_)) => r is None,
                None => r is None,
            },
    {
        let found = self.find(name);
        match found {
            None => None,
            Some(i) => {
                proof {
                    self.lemma_key_index(name@, i as int);
                }
                let entry = &self.textures[i];
                match &entry.1 {
                    TextureType::TextureSwapChain(a, b) => {
                        if frame_count % 2 == 0 {
                            Some(b)
                        } else {
                            Some(a)
                        }
                    },
                    TextureType::SingleTexture(a) => Some(a),
                    TextureType::DescriptorTexture(a, _) => Some(a),
                    TextureType::Buffer(_) => None,
                }
            },
        }
    }

    /// The texture a default view of `name` is created from this frame:
    /// the same resolution as `get`, a swap pair giving its current (write)
    /// side.
    pub fn get_view(&self, name: &str, frame_count: u64) -> (r: Option<&R>)
        requires
            self.wf(),
        ensures
            match self.spec_get(name@) {
                Some(TextureType::TextureSwapChain(a, b)) => r matches Some(t) && *t == (
                if spec_swap_write_slot(frame_count) == 0 {
                    a
                } else {
                    b
                }),
                Some(TextureType::SingleTexture(a)) => r matches Some(t) && *t == a,
                Some(TextureType::DescriptorTexture(a, _)) => r matches Some(t) && *t == a,
                Some(TextureType::Buffer(_)) => r is None,
                None => r is None,
            },
    {
        self.get(name, frame_count)
    }

    /// The texture a single-mip view with base level `base_mip_level` is
    /// created from. Answers nothing when the level does not exist, so a
    /// view built from this resolution is always valid.
    pub fn get_view_descriptor(&self, name: &str, base_mip_level: u32, frame_count: u64) -> (r:
        Option<&R>)
        requires
            self.wf(),
        ensures
            match self.spec_get(name@) {
                Some(TextureType::TextureSwapChain(a, b)) => if base_mip_level < 1 {
                    r matches Some(t) && *t == (
                    if spec_swap_write_slot(frame_count) == 0 {
                        a
                    } else {
                        b
                    })
                } else {
                    r is None
                },
                Some(TextureType::SingleTexture(a)) => if base_mip_level < 1 {
                    r matches Some(t) && *t == a
                } else {
                    r is None
                },
                Some(TextureType::DescriptorTexture(a, info)) => if base_mip_level
                    < info.mip_levels {
                    r matches Some(t) && *t == a
                } else {
                    r is None
                },
                Some(TextureType::Buffer(_)) => r is None,
                None => r is None,
            },
    {
        let found = self.find(name);
        match found {
            None => None,
            Some(i) => {
                proof {
                    self.lemma_key_index(name@, i as int);
                }
                let entry = &self.textures[i];
                match &entry.1 {
                    TextureType::TextureSwapChain(a, b) => {
                        if base_mip_level < 1 {
                            if frame_count % 2 == 0 {
                                Some(b)
                            } else {
                                Some(a)
                            }
                        } else {
                            None
                        }
                    },
                    TextureType::SingleTexture(a) => {
                        if base_mip_level < 1 {
                            Some(a)
                        } else {
                            None
                        }
                    },
                    TextureType::DescriptorTexture(a, info) => {
                        if base_mip_level < info.mip_levels {
                            Some(a)
                        } else {
                            None
                        }
                    },
                    TextureType::Buffer(_) => None,
                }
            },
        }
    }

    /// The two sides of the swap pair under `name` for frame `frame_count`:
    /// first the texture to read (written last frame), then the texture to
    /// write (read next frame). The ping-pong law says these are the two
    /// distinct slots of the pair.
    pub fn get_view_swapchain(&self, name: &str, frame_count: u64) -> (r: Option<(&R, &R)>)
        requires
            self.wf(),
        ensures
            match self.spec_get(name@) {
                Some(TextureType::TextureSwapChain(a, b)) => {
                    &&& r matches Some(p)
                    &&& *p.0 == (if spec_swap_read_slot(frame_count) == 0 { a } else { b })
                    &&& *p.1 == (if spec_swap_write_slot(frame_count) == 0 { a } else { b })
                },
                Some(TextureType::SingleTexture(_)) => r is None,
                Some(TextureType::DescriptorTexture(_, _)) => r is None,
                Some(TextureType::Buffer(_)) => r is None,
                None => r is None,
            },
    {
        let found = self.find(name);
        match found {
            None => None,
            Some(i) => {
                proof {
                    self.lemma_key_index(name@, i as int);
                }
                let entry = &self.textures[i];
                match &entry.1 {
                    TextureType::TextureSwapChain(a, b) => {
                        if frame_count % 2 == 0 {
                            Some((a, b))
                        } else {
                            Some((b, a))
                        }
                    },
                    _ => None,
                }
            },
        }
    }

    /// The metadata of the resource under `name`: authoritative for
    /// descriptor textures, the current window size for window-sized ones.
    pub fn get_info(&self, name: &str) -> (r: Option<TextureInfo>)
        requires
            self.wf(),
        ensures
            r == self.spec_get_info(name@),
    {
        let found = self.find(name);
        match found {
            None => None,
            Some(i) => {
                proof {
                    self.lemma_key_index(name@, i as int);
                }
                let entry = &self.textures[i];
                match &entry.1 {
                    TextureType::TextureSwapChain(_, _) => Some(
                        TextureInfo {
                            size: (self.window_size.0, self.window_size.1, 1),
                            mip_levels: 1,
                        },
                    ),
                    TextureType::SingleTexture(_) => Some(
                        TextureInfo {
                            size: (self.window_size.0, self.window_size.1, 1),
                            mip_levels: 1,
                        },
                    ),
                    TextureType::DescriptorTexture(_, info) => Some(*info),
                    TextureType::Buffer(_) => None,
                }
            },
        }
    }

    /// The buffer under `name`, if `name` names a buffer.
    pub fn get_buffer(&self, name: &str) -> (r: Option<&R>)
        requires
            self.wf(),
        ensures
            match self.spec_get(name@) {
                Some(TextureType::Buffer(b)) => r matches Some(t) && *t == b,
                Some(TextureType::TextureSwapChain(_, _)) => r is None,
                Some(TextureType::SingleTexture(_)) => r is None,
                Some(TextureType::DescriptorTexture(_, _)) => r is None,
                None => r is None,
            },
    {
        let found = self.find(name);
        match found {
            None => None,
            Some(i) => {
                proof {
                    self.lemma_key_index(name@, i as int);
                }
                let entry = &self.textures[i];
                match &entry.1 {
                    TextureType::Buffer(b) => Some(b),
                    _ => None,
                }
            },
        }
    }

    /// The current window size.
    pub fn window_size(&self) -> (r: (u32, u32))
        ensures
            r == self.spec_window_size(),
    {
        self.window_size
    }

    /// The default sampler.
    pub fn get_default_sampler(&self) -> (r: &R)
        ensures
            *r == self.spec_sampler(),
    {
        &self.sampler
    }

    /// Resize law: after `resize(new_size)`, descriptor and buffer entries
    /// report exactly the metadata they reported before, and every
    /// window-sized entry reports `new_size`.
    pub proof fn lemma_resize_info(pre: Self, post: Self, new_size: (u32, u32))
        requires
            forall|k: Seq<char>| post.spec_get(k) == pre.spec_get(k),
            post.spec_window_size() == new_size,
        ensures
            forall|k: Seq<char>|
                (pre.spec_get(k) matches Some(TextureType::DescriptorTexture(_, _)) || pre.spec_get(
                    k,
                ) matches Some(TextureType::Buffer(_))) ==> post.spec_get_info(k)
                    == pre.spec_get_info(k),
            forall|k: Seq<char>|
                (pre.spec_get(k) matches Some(TextureType::SingleTexture(_)) || pre.spec_get(
                    k,
                ) matches Some(TextureType::TextureSwapChain(_, _))) ==> post.spec_get_info(k)
                    == Some(TextureInfo { size: (new_size.0, new_size.1, 1), mip_levels: 1 }),
    {
    }

    /// Idempotence law: registering the same resource under the same key a
    /// second time leaves the registry exactly as after the first
    /// registration, so every `get_info` answer is identical.
    pub proof fn lemma_register_idempotent(
        pre: Self,
        mid: Self,
        post: Self,
        k: Seq<char>,
        t: TextureType<R>,
    )
        requires
            Self::registered(pre, mid, k, t),
            Self::registered(mid, post, k, t),
        ensures
            forall|k2: Seq<char>| post.spec_get(k2) == mid.spec_get(k2),
            forall|k2: Seq<char>| post.spec_get_info(k2) == mid.spec_get_info(k2),
    {
        assert forall|k2: Seq<char>| post.spec_get(k2) == mid.spec_get(k2) by {
            if k2 != k {
                assert(post.spec_get(k2) == mid.spec_get(k2));
            }
        }
    }
}

/// Relies on `str`'s `PartialEq`: two string slices are equal exactly when
/// their character sequences are equal.
#[verifier::external_body]
fn str_eq(a: &str, b: &str) -> (r: bool)
    ensures
        r == (a@ == b@),
{
    a == b
}

} // verus!
