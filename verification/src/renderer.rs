//! The render thread's message protocol: requests queued by callers, and what
//! the render loop does with each.
use vstd::prelude::*;

verus! {

/// A request to the render thread.
#[derive(Debug, Clone, Copy, PartialEq, Eq, Structural)]
pub enum RenderThreadMessage {
    NoMessage,
    StopRenderer,
    NewShader,
    NewTexture,
}

/// What the render loop does in one turn.
#[derive(Debug, Clone, Copy, PartialEq, Eq, Structural)]
pub enum LoopStep {
    /// Build a pipeline from the pending shader sources.
    BuildShader,
    /// Re-upload the sampler textures of the current pipeline.
    RefreshTextures,
    /// Leave the loop.
    Stop,
    /// Nothing to draw: yield the thread.
    Idle,
    /// Draw a frame (when the frame interval has passed).
    Draw,
}

/// The render loop's choice for a message: build, refresh or stop on the
/// matching request; with no request, draw if there is a continuously
/// rendered shader and idle otherwise.
pub open spec fn step_for(msg: RenderThreadMessage, continuous_shader: bool) -> LoopStep {
    match msg {
        RenderThreadMessage::NewShader => LoopStep::BuildShader,
        RenderThreadMessage::NewTexture => LoopStep::RefreshTextures,
        RenderThreadMessage::StopRenderer => LoopStep::Stop,
        RenderThreadMessage::NoMessage => if continuous_shader {
            LoopStep::Draw
        } else {
            LoopStep::Idle
        },
    }
}

/// The render loop's choice for a message (see `step_for`).
pub fn loop_step(msg: RenderThreadMessage, continuous_shader: bool) -> (step: LoopStep)
    ensures
        step == step_for(msg, continuous_shader),
{
    match msg {
        RenderThreadMessage::NewShader => LoopStep::BuildShader,
        RenderThreadMessage::NewTexture => LoopStep::RefreshTextures,
        RenderThreadMessage::StopRenderer => LoopStep::Stop,
        RenderThreadMessage::NoMessage => if continuous_shader {
            LoopStep::Draw
        } else {
            LoopStep::Idle
        },
    }
}

/// The state shared between callers and the render thread: queued
/// messages, the shader waiting to be built, and the outcome of the last build.
pub struct RenderControl {
    /// Pending messages; the render thread takes the most recent first.
    pub msg: Vec<RenderThreadMessage>,
    /// The last shader request has been handled.
    pub msg_processed: bool,
    /// Error message of the last shader build ("" when it succeeded).
    pub shader_error: String,
    pub new_shader_vertex_source: String,
    pub new_shader_fragment_source: String,
    pub new_shader_is_continuous: bool,
    /// The pending shader is a ShaderToy fragment.
    pub is_shader_toy: bool,
    /// The render loop is running.
    pub loop_running: bool,
}

impl RenderControl {
    /// No request handled yet: one `None` message queued, nothing pending.
    pub fn new() -> (c: Self)
        ensures
            c.msg@ == seq![RenderThreadMessage::NoMessage],
            c.msg_processed,
            c.shader_error@ == Seq::<char>::empty(),
            c.new_shader_vertex_source@ == Seq::<char>::empty(),
            c.new_shader_fragment_source@ == Seq::<char>::empty(),
            !c.new_shader_is_continuous,
            !c.is_shader_toy,
            !c.loop_running,
    {
        let mut msg = Vec::new();
        msg.push(RenderThreadMessage::NoMessage);
        RenderControl {
            msg,
            msg_processed: true,
            shader_error: String::new(),
            new_shader_vertex_source: String::new(),
            new_shader_fragment_source: String::new(),
            new_shader_is_continuous: false,
            is_shader_toy: false,
            loop_running: false,
        }
    }

    /// Queue a request to stop the render loop.
    pub fn stop(&mut self)
        ensures
            *final(self) == (RenderControl { msg: final(self).msg, ..*old(self) }),
            final(self).msg@ == old(self).msg@.push(RenderThreadMessage::StopRenderer),
    {
        self.msg.push(RenderThreadMessage::StopRenderer);
    }

    /// Queue a request to re-upload textures.
    pub fn set_new_texture_msg(&mut self)
        ensures
            *final(self) == (RenderControl { msg: final(self).msg, ..*old(self) }),
            final(self).msg@ == old(self).msg@.push(RenderThreadMessage::NewTexture),
    {
        self.msg.push(RenderThreadMessage::NewTexture);
    }

    /// Whether the render loop is running.
    pub fn is_looping(&self) -> (b: bool)
        ensures
            b == self.loop_running,
    {
        self.loop_running
    }

    /// Queue a new shader: its sources become pending, the last error is
    /// cleared, and the request counts as not yet handled.
    pub fn set_shader(&mut self, is_continuous: bool, vertex: &str, fragment: &str)
        ensures
            final(self).shader_error@ == Seq::<char>::empty(),
            final(self).new_shader_vertex_source@ == vertex@,
            final(self).new_shader_fragment_source@ == fragment@,
            final(self).new_shader_is_continuous == is_continuous,
            !final(self).msg_processed,
            final(self).msg@ == old(self).msg@.push(RenderThreadMessage::NewShader),
            final(self).is_shader_toy == old(self).is_shader_toy,
            final(self).loop_running == old(self).loop_running,
    {
        self.shader_error = String::new();
        self.new_shader_vertex_source = vertex.to_owned();
        self.new_shader_fragment_source = fragment.to_owned();
        self.new_shader_is_continuous = is_continuous;
        self.msg_processed = false;
        self.msg.push(RenderThreadMessage::NewShader);
    }

    /// Queue a ShaderToy fragment (continuous, no vertex source).
    pub fn set_shader_toy(&mut self, fragment: &str)
        ensures
            final(self).is_shader_toy,
            final(self).shader_error@ == Seq::<char>::empty(),
            final(self).new_shader_vertex_source@ == ""@,
            final(self).new_shader_fragment_source@ == fragment@,
            final(self).new_shader_is_continuous,
            !final(self).msg_processed,
            final(self).msg@ == old(self).msg@.push(RenderThreadMessage::NewShader),
            final(self).loop_running == old(self).loop_running,
    {
        self.is_shader_toy = true;
        self.set_shader(true, "", fragment);
    }

    /// Queue a plain vertex + fragment shader.
    pub fn set_shader_mut(&mut self, is_continuous: bool, vertex: &str, fragment: &str)
        ensures
            !final(self).is_shader_toy,
            final(self).shader_error@ == Seq::<char>::empty(),
            final(self).new_shader_vertex_source@ == vertex@,
            final(self).new_shader_fragment_source@ == fragment@,
            final(self).new_shader_is_continuous == is_continuous,
            !final(self).msg_processed,
            final(self).msg@ == old(self).msg@.push(RenderThreadMessage::NewShader),
            final(self).loop_running == old(self).loop_running,
    {
        self.is_shader_toy = false;
        self.set_shader(is_continuous, vertex, fragment);
    }

    /// Take the most recent pending message, or `NoMessage` when there is none.
    pub fn take_message(&mut self) -> (m: RenderThreadMessage)
        ensures
            old(self).msg@.len() == 0 ==> m == RenderThreadMessage::NoMessage && final(self).msg@ == old(self).msg@,
            old(self).msg@.len() > 0 ==> m == old(self).msg@.last() && final(self).msg@ == old(self).msg@.drop_last(),
            *final(self) == (RenderControl { msg: final(self).msg, ..*old(self) }),
    {
        match self.msg.pop() {
            Some(m) => m,
            None => RenderThreadMessage::NoMessage,
        }
    }

    /// Record the outcome of building the pending shader: its error message
    /// ("" on success), and that the request has been handled.
    pub fn shader_built(&mut self, error: String)
        ensures
            final(self).shader_error == error,
            final(self).msg_processed,
            *final(self) == (RenderControl { shader_error: error, msg_processed: true, ..*old(self) }),
    {
        self.shader_error = error;
        self.msg_processed = true;
    }

    /// Mark the render loop running or stopped.
    pub fn set_loop_running(&mut self, running: bool)
        ensures
            *final(self) == (RenderControl { loop_running: running, ..*old(self) }),
    {
        self.loop_running = running;
    }
}

/// The render thread takes the most recent request first: whatever was
/// queued last is taken next, and taking it leaves the queue as it was before.
pub proof fn law_last_request_taken_first(queue: Seq<RenderThreadMessage>, m: RenderThreadMessage)
    ensures
        queue.push(m).last() == m,
        queue.push(m).drop_last() == queue,
{
    assert(queue.push(m).drop_last() =~= queue);
}

} // verus!
