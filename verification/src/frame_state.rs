use vstd::prelude::*;

use crate::components::Entity;

verus! {

/// What a system asks another to do later in the frame.
pub enum ActionRequest {
    /// Put `entity`, taken out of its storage, down in the world.
    ItemPlacement { entity: Entity },
}

/// What the systems found and handled during the current frame.
pub struct FrameState {
    pub objects_on_cursor: Vec<Entity>,
    /// In an orthographic view every object under the cursor lies at the
    /// same ray distance, so the nearest one is chosen by the systems and
    /// kept here.
    pub nearest_object: Option<Entity>,
    pub handled_left_click: bool,
    pub handled_right_click: bool,
    pub handled_e_click: bool,
    pub handled_enter_click: bool,
}

impl FrameState {
    /// Nothing found and nothing handled yet.
    pub fn new() -> (frame_state: FrameState)
        ensures
            frame_state.objects_on_cursor@.len() == 0,
            frame_state.nearest_object is None,
            !frame_state.handled_left_click,
            !frame_state.handled_right_click,
            !frame_state.handled_e_click,
            !frame_state.handled_enter_click,
    {
        Self {
            objects_on_cursor: Vec::new(),
            nearest_object: None,
            handled_left_click: false,
            handled_right_click: false,
            handled_e_click: false,
            handled_enter_click: false,
        }
    }

    /// Adds `object` to the objects under the cursor, after those found before.
    pub fn add_object(&mut self, object: Entity)
        ensures
            final(self).objects_on_cursor@ == old(self).objects_on_cursor@.push(object),
            final(self).nearest_object == old(self).nearest_object,
            final(self).handled_left_click == old(self).handled_left_click,
            final(self).handled_right_click == old(self).handled_right_click,
            final(self).handled_e_click == old(self).handled_e_click,
            final(self).handled_enter_click == old(self).handled_enter_click,
    {
        self.objects_on_cursor.push(object);
    }

    pub fn get_objects_on_cursor(&self) -> (objects: &Vec<Entity>)
        ensures
            objects@ == self.objects_on_cursor@,
    {
        &self.objects_on_cursor
    }

    pub fn set_nearest_object_on_cursor(&mut self, nearest_object: Option<Entity>)
        ensures
            final(self).nearest_object == nearest_object,
            final(self).objects_on_cursor == old(self).objects_on_cursor,
            final(self).handled_left_click == old(self).handled_left_click,
            final(self).handled_right_click == old(self).handled_right_click,
            final(self).handled_e_click == old(self).handled_e_click,
            final(self).handled_enter_click == old(self).handled_enter_click,
    {
        self.nearest_object = nearest_object;
    }

    pub fn get_nearest_object_on_cursor(&self) -> (nearest: Option<&Entity>)
        ensures
            match nearest {
                Some(e) => self.nearest_object == Some(*e),
                None => self.nearest_object is None,
            },
    {
        self.nearest_object.as_ref()
    }
}

} // verus!
