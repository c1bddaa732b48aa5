//! The target that a frame is rendered to.

use std::sync::Arc;
use vstd::prelude::*;

verus! {

/// Where a frame's image goes.
///
/// `S` is the surface, `I` an image acquired from it and `V` a view that passes
/// render into. The target never looks inside any of them.
#[derive(Debug, PartialEq, Eq)]
pub enum OutputFrame<S, I, V> {
    /// A surface whose image has not been acquired yet, so that it can be
    /// acquired as late as possible.
    Surface { surface: Arc<S> },
    /// An acquired image of a surface, with the view onto it. It is the only
    /// state that there is something to present in.
    SurfaceAcquired { view: V, surface_tex: I },
    /// An arbitrary view, which is never presented.
    View(Arc<V>),
}

impl<S, I, V> OutputFrame<S, I, V> {
    /// The surface that an image still has to be acquired from, if any.
    pub fn surface(&self) -> (pending: Option<&Arc<S>>)
        ensures
            pending == match *self {
                OutputFrame::Surface { surface } => Some(&surface),
                _ => None,
            },
    {
        match self {
            OutputFrame::Surface { surface } => Some(surface),
            _ => None,
        }
    }

    /// The target after [`Self::acquire`] has taken in `acquired`: only an
    /// unacquired surface that is given an image changes, to the acquired state.
    pub open spec fn after_acquire<E>(self, acquired: Result<(I, V), E>) -> Self {
        match (self, acquired) {
            (OutputFrame::Surface { .. }, Ok((image, view))) => OutputFrame::SurfaceAcquired {
                view,
                surface_tex: image,
            },
            _ => self,
        }
    }

    /// What [`Self::acquire`] reports for `acquired`: the error, if the surface
    /// was unacquired and acquiring failed, and success in every other case.
    pub open spec fn acquire_report<E>(self, acquired: Result<(I, V), E>) -> Result<(), E> {
        match (self, acquired) {
            (OutputFrame::Surface { .. }, Err(error)) => Err(error),
            _ => Ok(()),
        }
    }

    /// Takes in what acquiring an image from [`Self::surface`] came to.
    ///
    /// From the unacquired state an image and its view move the target to the
    /// acquired state, and an error is handed back with the target unchanged. In
    /// the other two states nothing happens at all.
    pub fn acquire<E>(&mut self, acquired: Result<(I, V), E>) -> (r: Result<(), E>)
        ensures
            *final(self) == old(self).after_acquire(acquired),
            r == old(self).acquire_report(acquired),
    {
        let pending = match &*self {
            OutputFrame::Surface { .. } => true,
            _ => false,
        };
        if pending {
            match acquired {
                Ok((surface_tex, view)) => {
                    *self = OutputFrame::SurfaceAcquired { view, surface_tex };
                    Ok(())
                },
                Err(error) => Err(error),
            }
        } else {
            Ok(())
        }
    }

    /// The view to render into: none while the surface is unacquired.
    pub open spec fn target(self) -> Option<V> {
        match self {
            OutputFrame::Surface { .. } => None,
            OutputFrame::SurfaceAcquired { view, .. } => Some(view),
            OutputFrame::View(inner) => Some(*inner),
        }
    }

    /// The view to render into: none while the surface is unacquired.
    pub fn as_view(&self) -> (target: Option<&V>)
        ensures
            match target {
                Some(view) => self.target() == Some(*view),
                None => self.target() is None,
            },
    {
        match self {
            OutputFrame::Surface { .. } => None,
            OutputFrame::SurfaceAcquired { view, .. } => Some(view),
            OutputFrame::View(inner) => Some(&**inner),
        }
    }

    /// Ends the frame and hands out the image that is to be presented, which
    /// there is only in the acquired state.
    pub fn present(self) -> (image: Option<I>)
        ensures
            image == match self {
                OutputFrame::SurfaceAcquired { surface_tex, .. } => Some(surface_tex),
                _ => None,
            },
    {
        match self {
            OutputFrame::SurfaceAcquired { surface_tex, .. } => Some(surface_tex),
            _ => None,
        }
    }
}

/// Acquiring is idempotent on a target that is acquired or an arbitrary view:
/// however often it is done and whatever it is given, the target stays as it is
/// and so does the view to render into, and each call reports success.
pub proof fn lemma_acquire_is_idempotent<S, I, V, E>(
    frame: OutputFrame<S, I, V>,
    first: Result<(I, V), E>,
    second: Result<(I, V), E>,
)
    requires
        !(frame is Surface),
    ensures
        frame.after_acquire(first) == frame,
        frame.after_acquire(first).after_acquire(second) == frame,
        frame.after_acquire(first).after_acquire(second).target() == frame.target(),
        frame.target() is Some,
        frame.acquire_report(first) == Ok::<(), E>(()),
        frame.after_acquire(first).acquire_report(second) == Ok::<(), E>(()),
{
}

/// Once an image has been acquired the target keeps it: a second acquisition,
/// whatever it comes to, changes nothing and reports success.
pub proof fn lemma_acquired_image_is_kept<S, I, V, E>(
    frame: OutputFrame<S, I, V>,
    image: I,
    view: V,
    second: Result<(I, V), E>,
)
    requires
        frame is Surface,
    ensures
        frame.after_acquire(Ok::<(I, V), E>((image, view))).target() == Some(view),
        frame.after_acquire(Ok::<(I, V), E>((image, view))).after_acquire(second) == frame.after_acquire(
            Ok::<(I, V), E>((image, view)),
        ),
        frame.after_acquire(Ok::<(I, V), E>((image, view))).acquire_report(second) == Ok::<(), E>(()),
{
}

} // verus!
