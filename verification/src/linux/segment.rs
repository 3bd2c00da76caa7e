//! The shared-memory segment of the accelerated path, and how it is given
//! back.

use vstd::prelude::*;

verus! {

/// A shared-memory segment that the server writes images into: the id the
/// server knows it by, the id the operating system gave it, and its size in
/// bytes.
#[derive(Debug, Copy, Clone, PartialEq, Eq, Structural)]
pub struct Segment {
    pub seg: u32,
    pub shm_id: i32,
    pub size: u64,
}

/// One act of giving a shared-memory segment back.
#[derive(Debug, Copy, Clone, PartialEq, Eq, Structural)]
pub enum Release {
    /// Tell the server to let go of the segment.
    DetachFromServer { seg: u32 },
    /// Unmap the segment from this process.
    Unmap,
    /// Have the operating system remove the segment.
    Remove { shm_id: i32 },
}

/// What of a shared-memory segment is to be given back. The order is fixed:
/// the server's attachment, then the mapping, then the segment itself; each
/// is attempted whatever became of the one before.
#[derive(Debug, Copy, Clone, PartialEq, Eq, Structural)]
pub struct Teardown {
    pub detach: Option<u32>,
    pub unmap: bool,
    pub remove: Option<i32>,
}

impl Teardown {
    /// Nothing to give back.
    pub open spec fn nothing() -> Teardown {
        Teardown { detach: None, unmap: false, remove: None }
    }

    /// Everything that an attached segment holds.
    pub open spec fn of(segment: Option<Segment>) -> Teardown {
        match segment {
            Some(segment) => Teardown {
                detach: Some(segment.seg),
                unmap: true,
                remove: Some(segment.shm_id),
            },
            None => Teardown::nothing(),
        }
    }

    /// The acts to perform, in order.
    pub open spec fn sequence(self) -> Seq<Release> {
        let detach = match self.detach {
            Some(seg) => seq![Release::DetachFromServer { seg }],
            None => Seq::empty(),
        };
        let unmap = if self.unmap {
            seq![Release::Unmap]
        } else {
            Seq::empty()
        };
        let remove = match self.remove {
            Some(shm_id) => seq![Release::Remove { shm_id }],
            None => Seq::empty(),
        };
        detach + unmap + remove
    }

    /// The acts to perform, in order.
    pub fn steps(&self) -> (steps: Vec<Release>)
        ensures
            steps@ == self.sequence(),
    {
        let mut steps: Vec<Release> = Vec::new();
        if let Some(seg) = self.detach {
            steps.push(Release::DetachFromServer { seg });
        }
        if self.unmap {
            steps.push(Release::Unmap);
        }
        if let Some(shm_id) = self.remove {
            steps.push(Release::Remove { shm_id });
        }
        assert(steps@ =~= self.sequence());
        steps
    }
}

} // verus!
