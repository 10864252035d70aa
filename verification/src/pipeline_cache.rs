//! Which compute pipelines exist already.
//!
//! Every device compiles the kernels of a family once, into a library, and makes a pipeline from
//! a kernel of the library when it is first asked for. The cache remembers both; compiling and
//! making pipelines is up to its user.
use vstd::prelude::*;

verus! {

/// The library of a device.
pub struct LibraryEntry<L> {
    pub device: usize,
    pub library: L,
}

/// The pipeline of a kernel on a device.
pub struct PipelineEntry<P> {
    pub device: usize,
    pub kernel: String,
    pub pipeline: P,
}

/// The libraries and pipelines that were made so far.
pub struct PipelineCache<L, P> {
    libraries: Vec<LibraryEntry<L>>,
    pipelines: Vec<PipelineEntry<P>>,
}

/// What has to be done to get a pipeline.
pub enum Lookup<'a, L, P> {
    /// Nothing: it exists.
    Hit(&'a P),
    /// Make it from a kernel of the library.
    Load(&'a L),
    /// Compile the library, and make it from a kernel of it.
    Compile,
}

/// The library of every device.
pub open spec fn library_map<L>(entries: Seq<LibraryEntry<L>>) -> Map<usize, L>
    decreases entries.len(),
{
    if entries.len() == 0 {
        Map::empty()
    } else {
        library_map(entries.drop_last()).insert(entries.last().device, entries.last().library)
    }
}

/// The pipeline of every device and kernel.
pub open spec fn pipeline_map<P>(entries: Seq<PipelineEntry<P>>) -> Map<(usize, Seq<char>), P>
    decreases entries.len(),
{
    if entries.len() == 0 {
        Map::empty()
    } else {
        pipeline_map(entries.drop_last()).insert(
            (entries.last().device, entries.last().kernel@),
            entries.last().pipeline,
        )
    }
}

impl<L, P> PipelineCache<L, P> {
    pub closed spec fn libraries(&self) -> Map<usize, L> {
        library_map(self.libraries@)
    }

    pub closed spec fn pipelines(&self) -> Map<(usize, Seq<char>), P> {
        pipeline_map(self.pipelines@)
    }

    /// Every pipeline was made from the library of its device.
    pub open spec fn valid(&self) -> bool {
        forall|device: usize, kernel: Seq<char>| #[trigger]
            self.pipelines().dom().contains((device, kernel))
                ==> self.libraries().dom().contains(device)
    }

    /// `lookup` says what has to be done to get the pipeline of a kernel on a device.
    pub open spec fn answers(&self, device: usize, kernel: Seq<char>, lookup: Lookup<L, P>) -> bool {
        match lookup {
            Lookup::Hit(pipeline) => self.pipelines().dom().contains((device, kernel))
                && self.pipelines()[(device, kernel)] == *pipeline,
            Lookup::Load(library) => !self.pipelines().dom().contains((device, kernel))
                && self.libraries().dom().contains(device) && self.libraries()[device] == *library,
            Lookup::Compile => !self.libraries().dom().contains(device),
        }
    }

    pub fn new() -> (cache: Self)
        ensures
            cache.valid(),
            cache.libraries() == Map::<usize, L>::empty(),
            cache.pipelines() == Map::<(usize, Seq<char>), P>::empty(),
    {
        PipelineCache { libraries: Vec::new(), pipelines: Vec::new() }
    }

    fn find_library(&self, device: usize) -> (found: Option<&L>)
        ensures
            match found {
                Some(library) => self.libraries().dom().contains(device)
                    && self.libraries()[device] == *library,
                None => !self.libraries().dom().contains(device),
            },
    {
        let mut i: usize = self.libraries.len();
        proof {
            assert(self.libraries@.take(i as int) =~= self.libraries@);
        }
        while i > 0
            invariant
                i <= self.libraries@.len(),
                self.libraries().dom().contains(device) == library_map(
                    self.libraries@.take(i as int),
                ).dom().contains(device),
                self.libraries().dom().contains(device) ==> self.libraries()[device]
                    == library_map(self.libraries@.take(i as int))[device],
            decreases i,
        {
            i -= 1;
            proof {
                let longer = self.libraries@.take(i + 1);
                assert(longer.drop_last() =~= self.libraries@.take(i as int));
                assert(longer.last() == self.libraries@[i as int]);
            }
            if self.libraries[i].device == device {
                return Some(&self.libraries[i].library);
            }
        }
        proof {
            assert(self.libraries@.take(0).len() == 0);
        }
        None
    }

    fn find_pipeline(&self, device: usize, kernel: &String) -> (found: Option<&P>)
        ensures
            match found {
                Some(pipeline) => self.pipelines().dom().contains((device, kernel@))
                    && self.pipelines()[(device, kernel@)] == *pipeline,
                None => !self.pipelines().dom().contains((device, kernel@)),
            },
    {
        let ghost key = (device, kernel@);
        let mut i: usize = self.pipelines.len();
        proof {
            assert(self.pipelines@.take(i as int) =~= self.pipelines@);
        }
        while i > 0
            invariant
                i <= self.pipelines@.len(),
                key == (device, kernel@),
                self.pipelines().dom().contains(key) == pipeline_map(
                    self.pipelines@.take(i as int),
                ).dom().contains(key),
                self.pipelines().dom().contains(key) ==> self.pipelines()[key] == pipeline_map(
                    self.pipelines@.take(i as int),
                )[key],
            decreases i,
        {
            i -= 1;
            proof {
                let longer = self.pipelines@.take(i + 1);
                assert(longer.drop_last() =~= self.pipelines@.take(i as int));
                assert(longer.last() == self.pipelines@[i as int]);
            }
            if self.pipelines[i].device == device && self.pipelines[i].kernel == *kernel {
                return Some(&self.pipelines[i].pipeline);
            }
        }
        proof {
            assert(self.pipelines@.take(0).len() == 0);
        }
        None
    }

    /// What has to be done to get the pipeline of a kernel on a device.
    pub fn look_up(&self, device: usize, kernel: &String) -> (lookup: Lookup<L, P>)
        requires
            self.valid(),
        ensures
            self.answers(device, kernel@, lookup),
    {
        match self.find_library(device) {
            Some(library) => match self.find_pipeline(device, kernel) {
                Some(pipeline) => Lookup::Hit(pipeline),
                None => Lookup::Load(library),
            },
            None => Lookup::Compile,
        }
    }

    /// Remembers a pipeline that was made from the library of its device.
    pub fn remember_pipeline(&mut self, device: usize, kernel: String, pipeline: P)
        requires
            old(self).valid(),
            old(self).libraries().dom().contains(device),
        ensures
            final(self).valid(),
            final(self).libraries() == old(self).libraries(),
            final(self).pipelines() == old(self).pipelines().insert((device, kernel@), pipeline),
    {
        self.pipelines.push(PipelineEntry { device, kernel, pipeline });
        proof {
            assert(self.pipelines@.drop_last() =~= old(self).pipelines@);
            lemma_still_valid(*old(self), *self, device, kernel@);
        }
    }

    /// Remembers the library of a device, and the first pipeline that was made from it.
    pub fn remember_library(&mut self, device: usize, library: L, kernel: String, pipeline: P)
        requires
            old(self).valid(),
        ensures
            final(self).valid(),
            final(self).libraries() == old(self).libraries().insert(device, library),
            final(self).pipelines() == old(self).pipelines().insert((device, kernel@), pipeline),
    {
        self.libraries.push(LibraryEntry { device, library });
        self.pipelines.push(PipelineEntry { device, kernel, pipeline });
        proof {
            assert(self.libraries@.drop_last() =~= old(self).libraries@);
            assert(self.pipelines@.drop_last() =~= old(self).pipelines@);
            lemma_still_valid(*old(self), *self, device, kernel@);
        }
    }
}

/// A pipeline that was remembered is found, and what was found before still is.
pub proof fn remembered_pipelines_are_hit<L, P>(
    before: PipelineCache<L, P>,
    after: PipelineCache<L, P>,
    device: usize,
    kernel: Seq<char>,
    pipeline: P,
    asked_device: usize,
    asked_kernel: Seq<char>,
    lookup: Lookup<L, P>,
)
    requires
        after.valid(),
        after.pipelines() == before.pipelines().insert((device, kernel), pipeline),
        after.answers(asked_device, asked_kernel, lookup),
        (asked_device, asked_kernel) == (device, kernel) || before.pipelines().dom().contains(
            (asked_device, asked_kernel),
        ),
    ensures
        lookup matches Lookup::Hit(found) && *found == (if (asked_device, asked_kernel) == (
            device,
            kernel,
        ) {
            pipeline
        } else {
            before.pipelines()[(asked_device, asked_kernel)]
        }),
{
    assert(after.pipelines().dom().contains((asked_device, asked_kernel)));
}

/// A cache stays valid when a pipeline of a device with a library is added.
proof fn lemma_still_valid<L, P>(
    before: PipelineCache<L, P>,
    after: PipelineCache<L, P>,
    device: usize,
    kernel: Seq<char>,
)
    requires
        before.valid(),
        after.libraries().dom().contains(device),
        before.libraries().dom().subset_of(after.libraries().dom()),
        after.pipelines().dom() == before.pipelines().dom().insert((device, kernel)),
    ensures
        after.valid(),
{
    assert forall|d: usize, k: Seq<char>| #[trigger]
        after.pipelines().dom().contains((d, k)) implies after.libraries().dom().contains(d) by {
        if (d, k) != (device, kernel) {
            assert(before.pipelines().dom().contains((d, k)));
        }
    }
}

/// A lookup hits what is remembered, and nothing else; else it gives the library of the device,
/// where there is one; it asks for a library only on a device that has none.
pub proof fn lookups_are_exact<L, P>(
    cache: PipelineCache<L, P>,
    device: usize,
    kernel: Seq<char>,
    lookup: Lookup<L, P>,
)
    requires
        cache.valid(),
        cache.answers(device, kernel, lookup),
    ensures
        lookup is Hit <==> cache.pipelines().dom().contains((device, kernel)),
        lookup is Compile <==> !cache.libraries().dom().contains(device),
        lookup matches Lookup::Hit(pipeline) ==> *pipeline == cache.pipelines()[(device, kernel)],
        lookup matches Lookup::Load(library) ==> *library == cache.libraries()[device],
{
    if cache.pipelines().dom().contains((device, kernel)) {
        assert(cache.libraries().dom().contains(device));
    }
}

} // verus!
