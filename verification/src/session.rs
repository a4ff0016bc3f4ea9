//! A session: one map, one way of shading, one screen size, and the camera
//! that moves through the map from frame to frame.

use vstd::prelude::*;
use crate::camera::{advanced, Camera, Intents, Motion, Pose};
use crate::frame::FrameBuffer;
use crate::grid::GridMap;
use crate::raycast::MAX_SCREEN_SIDE;
use crate::render::{covers_map, frame_pixel, render_frame, Shading};

verus! {

/// Why a session cannot start.
#[derive(Clone, Copy, Debug, PartialEq, Eq)]
pub enum ConfigError {
    /// A side of the screen is 0 or more than `MAX_SCREEN_SIDE`.
    BadScreen,
    /// Some cell of the map has a code for which the shading has no colour.
    MissingMaterial,
    /// The camera does not stand in a cell of the map, or stands on its border.
    CameraOutside,
}

/// The state of a running session. The map, the shading and the screen size
/// stay as they are; the camera moves, and stays strictly inside the map.
pub struct Session {
    map: GridMap,
    shading: Shading,
    camera: Camera,
    width: usize,
    height: usize,
}

/// The reason for which a session with these parts cannot start, if there is one.
pub open spec fn config_fault(
    map: GridMap,
    shading: Shading,
    pose: Pose,
    width: int,
    height: int,
) -> Option<ConfigError> {
    if width < 1 || width > MAX_SCREEN_SIDE || height < 1 || height > MAX_SCREEN_SIDE {
        Some(ConfigError::BadScreen)
    } else if !covers_map(shading, map) {
        Some(ConfigError::MissingMaterial)
    } else if !map.strictly_inside(pose.position.x, pose.position.y) {
        Some(ConfigError::CameraOutside)
    } else {
        None
    }
}

impl Session {
    /// The map.
    pub closed spec fn map(&self) -> GridMap {
        self.map
    }

    /// The shading.
    pub closed spec fn shading(&self) -> Shading {
        self.shading
    }

    /// The pose of the camera.
    pub closed spec fn pose(&self) -> Pose {
        self.camera@
    }

    /// The number of pixel columns of the screen.
    pub closed spec fn columns(&self) -> int {
        self.width as int
    }

    /// The number of pixel rows of the screen.
    pub closed spec fn rows(&self) -> int {
        self.height as int
    }

    /// The parts are valid and fit together: every wall of the map has a colour,
    /// and the camera stands strictly inside the map.
    pub closed spec fn wf(&self) -> bool {
        &&& self.map.wf()
        &&& self.shading.wf()
        &&& self.camera.wf()
        &&& config_fault(self.map, self.shading, self.camera@, self.width as int, self.height as int)
            is None
    }

    /// A session is free of every fault of configuration, and its camera
    /// stands strictly inside the map.
    pub proof fn lemma_wf(&self)
        requires
            self.wf(),
        ensures
            self.map().wf(),
            self.shading().wf(),
            config_fault(self.map(), self.shading(), self.pose(), self.columns(), self.rows())
                is None,
            self.map().strictly_inside(self.pose().position.x, self.pose().position.y),
    {
    }

    /// The session on the given map, with the given shading and camera, for a
    /// screen of `width` by `height` pixels; or the first fault among: the
    /// screen size, a wall without colour, the camera not strictly inside the map.
    pub fn new(map: GridMap, shading: Shading, camera: Camera, width: usize, height: usize) -> (r:
        Result<Session, ConfigError>)
        requires
            map.wf(),
            shading.wf(),
            camera.wf(),
        ensures
            match r {
                Ok(s) => {
                    &&& config_fault(map, shading, camera@, width as int, height as int) is None
                    &&& s.wf()
                    &&& s.map() == map
                    &&& s.shading() == shading
                    &&& s.pose() == camera@
                    &&& s.columns() == width
                    &&& s.rows() == height
                },
                Err(e) => config_fault(map, shading, camera@, width as int, height as int) == Some(
                    e,
                ),
            },
    {
        if width < 1 || width > MAX_SCREEN_SIDE || height < 1 || height > MAX_SCREEN_SIDE {
            return Err(ConfigError::BadScreen);
        }
        let top = map.highest_code();
        if top as usize > shading.material_count() {
            proof {
                let (row, col) = choose|row: int, col: int|
                    map.in_range(row, col) && #[trigger] map.cell(row, col) == top as int;
                assert(map.cell(row, col) > shading.materials());
            }
            return Err(ConfigError::MissingMaterial);
        }
        let position = camera.position();
        if !map.is_strictly_inside(position.x, position.y) {
            return Err(ConfigError::CameraOutside);
        }
        Ok(Session { map, shading, camera, width, height })
    }

    /// Advances the camera by one step, as `intents` asks and by the amounts of
    /// `motion`; nothing else changes.
    pub fn advance(&mut self, intents: &Intents, motion: &Motion)
        requires
            old(self).wf(),
            motion.wf(),
        ensures
            final(self).wf(),
            final(self).pose() == advanced(old(self).map(), old(self).pose(), *intents, *motion),
            final(self).map() == old(self).map(),
            final(self).shading() == old(self).shading(),
            final(self).columns() == old(self).columns(),
            final(self).rows() == old(self).rows(),
    {
        self.camera.advance(intents, motion, &self.map);
    }

    /// The frame that shows the map from the camera.
    pub fn render(&self) -> (frame: FrameBuffer)
        requires
            self.wf(),
        ensures
            frame.wf(),
            frame.columns() == self.columns(),
            frame.rows() == self.rows(),
            forall|x: int, y: int|
                0 <= x < self.columns() && 0 <= y < self.rows() ==> #[trigger] frame.pixel(x, y)
                    == frame_pixel(
                    self.map(),
                    self.pose(),
                    self.shading(),
                    self.columns(),
                    self.rows(),
                    x,
                    y,
                ),
    {
        proof {
            self.lemma_wf();
        }
        render_frame(&self.camera, &self.map, &self.shading, self.width, self.height)
    }

    /// The camera.
    pub fn camera(&self) -> (camera: Camera)
        ensures
            camera@ == self.pose(),
            self.wf() ==> camera.wf(),
    {
        self.camera
    }

    /// The map.
    pub fn grid(&self) -> (map: &GridMap)
        ensures
            *map == self.map(),
    {
        &self.map
    }

    /// The number of pixel columns of the screen.
    pub fn width(&self) -> (w: usize)
        ensures
            w == self.columns(),
    {
        self.width
    }

    /// The number of pixel rows of the screen.
    pub fn height(&self) -> (h: usize)
        ensures
            h == self.rows(),
    {
        self.height
    }
}

} // verus!
