use vstd::prelude::*;

use crate::brush::{draw_line, stamped};
use crate::matter::{MatterId, MatterWithColor};
use crate::utils::{lemma_index_in_range, GridPos};

verus! {

/// Side of a compute work group along x, in cells.
pub const LOCAL_SIZE_X: u32 = 32;

/// Side of a compute work group along y, in cells.
pub const LOCAL_SIZE_Y: u32 = 32;

/// Why a canvas cannot be simulated.
#[derive(Debug, Copy, Clone, Eq, PartialEq, Structural)]
pub enum ConfigError {
    /// The width is not a multiple of the work group's width.
    IndivisibleWidth,
    /// The height is not a multiple of the work group's height.
    IndivisibleHeight,
}

/// Names one of the two cell buffers, whatever role it plays at the moment.
#[derive(Debug, Copy, Clone, Eq, PartialEq, Structural)]
pub enum BufferId {
    First,
    Second,
}

/// The three compute passes. Fall and slide move matter and write the next
/// state of the grid; color reads the grid and paints the image.
#[derive(Debug, Copy, Clone, Eq, PartialEq, Structural)]
pub enum Pipeline {
    Fall,
    Slide,
    Color,
}

/// The two clocks, as a compute pass is handed them.
#[derive(Debug, Copy, Clone, Eq, PartialEq, Structural)]
pub struct PushConstants {
    pub sim_step: u32,
    pub move_step: u32,
}

/// How many work groups a pass is spread over, along each axis.
#[derive(Debug, Copy, Clone, Eq, PartialEq, Structural)]
pub struct WorkGroups {
    pub x: u32,
    pub y: u32,
    pub z: u32,
}

/// One compute pass as it is to be recorded: the pipeline, the buffer bound
/// as input and the buffer bound as output (the image is always the third
/// binding), the clocks, and the work groups.
#[derive(Debug, Copy, Clone, Eq, PartialEq, Structural)]
pub struct Dispatch {
    pub pipeline: Pipeline,
    pub matter_in: BufferId,
    pub matter_out: BufferId,
    pub push_constants: PushConstants,
    pub work_groups: WorkGroups,
}

/// A cell buffer: one packed cell per grid position, row after row.
struct GridBuffer {
    id: BufferId,
    cells: Vec<u32>,
}

/// What a simulator is, as plain mathematics.
pub struct SimulatorState {
    pub width: nat,
    pub height: nat,
    /// The buffer that host writes go to and that the next pass reads.
    pub front: Seq<u32>,
    /// The buffer that the next movement pass writes.
    pub back: Seq<u32>,
    pub front_id: BufferId,
    pub back_id: BufferId,
    /// Ticks taken so far.
    pub sim_step: nat,
    /// Movement passes dispatched so far, over all ticks.
    pub move_step: nat,
}

/// The first configuration fault of a canvas, if it has one. The width is
/// looked at first.
pub open spec fn config_error(width: u32, height: u32) -> Option<ConfigError> {
    if width % LOCAL_SIZE_X != 0 {
        Some(ConfigError::IndivisibleWidth)
    } else if height % LOCAL_SIZE_Y != 0 {
        Some(ConfigError::IndivisibleHeight)
    } else {
        None
    }
}

/// Every cell of the buffer is the encoding of some matter.
pub open spec fn all_canonical(cells: Seq<u32>) -> bool {
    forall|i: int| 0 <= i < cells.len() ==> (MatterWithColor { value: #[trigger] cells[i] }).is_canonical()
}

impl SimulatorState {
    /// A fresh simulator: every cell empty in both buffers, both clocks at
    /// zero, the first buffer in front.
    pub open spec fn initial(width: nat, height: nat) -> SimulatorState {
        SimulatorState {
            width,
            height,
            front: Seq::new(width * height, |i: int| 0u32),
            back: Seq::new(width * height, |i: int| 0u32),
            front_id: BufferId::First,
            back_id: BufferId::Second,
            sim_step: 0,
            move_step: 0,
        }
    }

    /// The state is one that a simulator can be in: the work groups tile the
    /// canvas with no cell left over, both buffers hold one cell per
    /// position, every cell is the encoding of some matter, and every count
    /// fits its machine type.
    pub open spec fn wf(self) -> bool {
        &&& self.width <= u32::MAX
        &&& self.height <= u32::MAX
        &&& self.width % (LOCAL_SIZE_X as nat) == 0
        &&& self.height % (LOCAL_SIZE_Y as nat) == 0
        &&& self.width * self.height <= usize::MAX
        &&& self.front.len() == self.width * self.height
        &&& self.back.len() == self.width * self.height
        &&& all_canonical(self.front)
        &&& all_canonical(self.back)
        &&& self.front_id != self.back_id
        &&& self.sim_step <= u32::MAX
        &&& self.move_step <= u32::MAX
    }

    /// The work groups of one pass: one per tile of the canvas.
    pub open spec fn work_groups(self) -> WorkGroups {
        WorkGroups {
            x: (self.width / (LOCAL_SIZE_X as nat)) as u32,
            y: (self.height / (LOCAL_SIZE_Y as nat)) as u32,
            z: 1,
        }
    }

    /// The pass that a simulator in this state records for `pipeline`: it
    /// reads the front buffer, writes the back buffer, and is handed the
    /// clocks as they stand.
    pub open spec fn dispatch_of(self, pipeline: Pipeline) -> Dispatch {
        Dispatch {
            pipeline,
            matter_in: self.front_id,
            matter_out: self.back_id,
            push_constants: PushConstants {
                sim_step: self.sim_step as u32,
                move_step: self.move_step as u32,
            },
            work_groups: self.work_groups(),
        }
    }

    /// The state with the roles of the two buffers exchanged.
    pub open spec fn swapped(self) -> SimulatorState {
        SimulatorState {
            front: self.back,
            back: self.front,
            front_id: self.back_id,
            back_id: self.front_id,
            ..self
        }
    }

    /// The state after `passes` movement passes: each pass exchanges the
    /// buffers and advances the movement clock by one.
    pub open spec fn after_passes(self, passes: nat) -> SimulatorState {
        let turned = if passes % 2 == 0 {
            self
        } else {
            self.swapped()
        };
        SimulatorState { move_step: self.move_step + passes, ..turned }
    }

    /// The movement pass number `i` of a tick, counted from zero: fall and
    /// slide take turns, fall first.
    pub open spec fn movement_pass(self, i: int) -> Dispatch {
        self.after_passes(i as nat).dispatch_of(
            if i % 2 == 0 {
                Pipeline::Fall
            } else {
                Pipeline::Slide
            },
        )
    }

    /// The passes of one tick with `move_steps` movement iterations, in the
    /// order in which they must run: fall, slide, fall, slide, ..., and
    /// color last, reading the buffer that the last movement pass wrote.
    pub open spec fn batch(self, move_steps: nat) -> Seq<Dispatch> {
        Seq::new(2 * move_steps, |i: int| self.movement_pass(i)).push(
            self.after_passes(2 * move_steps).dispatch_of(Pipeline::Color),
        )
    }

    /// How many times fall and slide run in a tick: not at all while paused.
    pub open spec fn iterations(move_steps: nat, is_paused: bool) -> nat {
        if is_paused {
            0
        } else {
            move_steps
        }
    }

    /// The state after one tick: the tick clock has advanced by one and the
    /// movement clock by two for every iteration. The buffers have traded
    /// roles an even number of times, so each is where it was.
    pub open spec fn after_step(self, move_steps: nat, is_paused: bool) -> SimulatorState {
        SimulatorState {
            sim_step: self.sim_step + 1,
            move_step: self.move_step + 2 * Self::iterations(move_steps, is_paused),
            ..self
        }
    }

    /// The state that a tick started from, given the state it led to.
    pub open spec fn before_step(self, move_steps: nat, is_paused: bool) -> SimulatorState {
        SimulatorState {
            sim_step: (self.sim_step - 1) as nat,
            move_step: (self.move_step - 2 * Self::iterations(move_steps, is_paused)) as nat,
            ..self
        }
    }

    /// Whether `pos` names a cell of the canvas.
    pub open spec fn is_inside(self, pos: GridPos) -> bool {
        0 <= pos.x < self.width && 0 <= pos.y < self.height
    }

    /// Where the cell at `pos` stands in a buffer: row after row.
    pub open spec fn index(self, pos: GridPos) -> int {
        pos.y * self.width + pos.x
    }
}

/// A cellular-automaton simulator: two cell buffers that trade roles after
/// each movement pass, and the clocks that the compute passes read.
pub struct CASimulator {
    width: u32,
    height: u32,
    matter_in: GridBuffer,
    matter_out: GridBuffer,
    sim_step: u32,
    move_step: u32,
}

impl View for CASimulator {
    type V = SimulatorState;

    closed spec fn view(&self) -> SimulatorState {
        SimulatorState {
            width: self.width as nat,
            height: self.height as nat,
            front: self.matter_in.cells@,
            back: self.matter_out.cells@,
            front_id: self.matter_in.id,
            back_id: self.matter_out.id,
            sim_step: self.sim_step as nat,
            move_step: self.move_step as nat,
        }
    }
}

/// A buffer of `width * height` empty cells.
fn empty_grid(width: u32, height: u32) -> (res: Vec<u32>)
    requires
        width * height <= usize::MAX,
    ensures
        res@ == Seq::new((width * height) as nat, |i: int| 0u32),
{
    assert(width * height == (width as usize) * (height as usize)) by (nonlinear_arith)
        requires
            width * height <= usize::MAX,
    ;
    let cells: usize = (width as usize) * (height as usize);
    let res: Vec<u32> = vec![0u32; cells];
    assert(res@ =~= Seq::new((width * height) as nat, |i: int| 0u32));
    res
}

impl CASimulator {
    /// The simulator's state is well formed.
    pub open spec fn wf(&self) -> bool {
        self@.wf()
    }

    /// Makes a simulator for a canvas of `width` by `height` cells, all of
    /// them empty. A side that the work group's side does not divide is
    /// refused, so that no cell is left without a work group.
    pub fn new(width: u32, height: u32) -> (res: Result<CASimulator, ConfigError>)
        requires
            width * height <= usize::MAX,
        ensures
            match res {
                Ok(sim) => config_error(width, height) is None && sim.wf() && sim@
                    == SimulatorState::initial(width as nat, height as nat),
                Err(e) => config_error(width, height) == Some(e),
            },
    {
        if width % LOCAL_SIZE_X != 0 {
            return Err(ConfigError::IndivisibleWidth);
        }
        if height % LOCAL_SIZE_Y != 0 {
            return Err(ConfigError::IndivisibleHeight);
        }
        let matter_in = GridBuffer { id: BufferId::First, cells: empty_grid(width, height) };
        let matter_out = GridBuffer { id: BufferId::Second, cells: empty_grid(width, height) };
        assert(MatterWithColor { value: 0 } == MatterWithColor::spec_new(MatterId::Empty));
        Ok(CASimulator { width, height, matter_in, matter_out, sim_step: 0, move_step: 0 })
    }

    /// Width of the canvas in cells.
    pub fn width(&self) -> (res: u32)
        ensures
            res == self@.width,
    {
        self.width
    }

    /// Height of the canvas in cells.
    pub fn height(&self) -> (res: u32)
        ensures
            res == self@.height,
    {
        self.height
    }

    /// Whether `pos` names a cell of the canvas.
    pub fn is_inside(&self, pos: GridPos) -> (res: bool)
        ensures
            res == self@.is_inside(pos),
    {
        pos.x >= 0 && (pos.x as i64) < (self.width as i64) && pos.y >= 0 && (pos.y as i64) < (
        self.height as i64)
    }

    /// Where the cell at `pos` stands in a buffer. Positions outside the
    /// canvas have no index: nothing is wrapped or clamped.
    pub fn index(&self, pos: GridPos) -> (res: usize)
        requires
            self.wf(),
            self@.is_inside(pos),
        ensures
            res == self@.index(pos),
            res < self@.width * self@.height,
    {
        proof {
            lemma_index_in_range(self@.width as int, self@.height as int, pos.x as int, pos.y as int);
        }
        (pos.y as usize) * (self.width as usize) + (pos.x as usize)
    }

    /// How many ticks have been taken.
    pub fn sim_step(&self) -> (res: u32)
        ensures
            res == self@.sim_step,
    {
        self.sim_step
    }

    /// How many movement passes have been dispatched, over all ticks.
    pub fn move_step(&self) -> (res: u32)
        ensures
            res == self@.move_step,
    {
        self.move_step
    }

    /// Which buffer is in front: the one that host writes go to.
    pub fn front_id(&self) -> (res: BufferId)
        ensures
            res == self@.front_id,
    {
        self.matter_in.id
    }

    /// The work groups of one pass. They tile the canvas with nothing left
    /// over.
    pub fn work_groups(&self) -> (res: WorkGroups)
        requires
            self.wf(),
        ensures
            res == self@.work_groups(),
            res.x * LOCAL_SIZE_X == self@.width,
            res.y * LOCAL_SIZE_Y == self@.height,
            res.z == 1,
    {
        WorkGroups { x: self.width / LOCAL_SIZE_X, y: self.height / LOCAL_SIZE_Y, z: 1 }
    }

    /// The cells of the front buffer, row after row.
    pub fn front(&self) -> (res: &[u32])
        ensures
            res@ == self@.front,
    {
        self.matter_in.cells.as_slice()
    }

    /// Reads the cell at `offset` of the front buffer.
    pub fn read_current(&self, offset: usize) -> (res: MatterWithColor)
        requires
            self.wf(),
            offset < self@.front.len(),
        ensures
            res.value == self@.front[offset as int],
            res.is_canonical(),
    {
        MatterWithColor { value: self.matter_in.cells[offset] }
    }

    /// Writes `cell` at `offset` of the front buffer.
    pub fn write_front(&mut self, offset: usize, cell: MatterWithColor)
        requires
            old(self).wf(),
            offset < old(self)@.front.len(),
            cell.is_canonical(),
        ensures
            final(self).wf(),
            final(self)@ == (SimulatorState {
                front: old(self)@.front.update(offset as int, cell.value),
                ..old(self)@
            }),
    {
        self.matter_in.cells[offset] = cell.value;
    }

    /// Exchanges the roles of the two buffers. No cell is copied.
    pub fn swap_buffers(&mut self)
        ensures
            old(self).wf() ==> final(self).wf(),
            final(self)@ == old(self)@.swapped(),
    {
        std::mem::swap(&mut self.matter_in, &mut self.matter_out);
    }

    /// Paints a stroke of `matter` onto the front buffer: at every point of
    /// `line` the disk of the given radius, in whole cells, is stamped.
    /// Covered cells are overwritten whatever they held; the parts of a disk
    /// that fall off the canvas are passed over. Since it is the distance
    /// that is rounded, a radius with a fraction paints as its whole part
    /// does.
    pub fn draw_matter(&mut self, line: &[GridPos], radius: i32, matter: MatterId)
        requires
            old(self).wf(),
        ensures
            final(self).wf(),
            final(self)@ == (SimulatorState {
                front: stamped(
                    old(self)@.front,
                    old(self)@.width,
                    line@,
                    radius as int,
                    MatterWithColor::spec_new(matter).value,
                ),
                ..old(self)@
            }),
    {
        let value: u32 = MatterWithColor::new(matter).value;
        draw_line(self.matter_in.cells.as_mut_slice(), self.width, self.height, line, radius, value);
    }

    /// Records one pass in `builder`; if `swap`, the pass writes the next
    /// state of the grid, and the buffers trade roles after it.
    fn dispatch(&mut self, builder: &mut Vec<Dispatch>, pipeline: Pipeline, swap: bool)
        requires
            old(self).wf(),
        ensures
            final(self).wf(),
            final(builder)@ == old(builder)@.push(old(self)@.dispatch_of(pipeline)),
            final(self)@ == if swap {
                old(self)@.swapped()
            } else {
                old(self)@
            },
    {
        let push_constants = PushConstants { sim_step: self.sim_step, move_step: self.move_step };
        builder.push(
            Dispatch {
                pipeline,
                matter_in: self.matter_in.id,
                matter_out: self.matter_out.id,
                push_constants,
                work_groups: self.work_groups(),
            },
        );
        if swap {
            self.swap_buffers();
        }
    }

    /// Records one movement pass. The movement clock tells the pass which
    /// way to lean, so it advances with every pass.
    fn step_movement(&mut self, builder: &mut Vec<Dispatch>, pipeline: Pipeline)
        requires
            old(self).wf(),
            old(self)@.move_step < u32::MAX,
        ensures
            final(self).wf(),
            final(builder)@ == old(builder)@.push(old(self)@.dispatch_of(pipeline)),
            final(self)@ == old(self)@.after_passes(1),
    {
        self.dispatch(builder, pipeline, true);
        self.move_step += 1;
    }

    /// Takes one tick and returns its passes, in order, to be submitted as
    /// one unit of work. Unless paused, `move_steps` times a fall pass and a
    /// slide pass are recorded, the buffers trading roles after each; the
    /// color pass always comes last and trades nothing.
    pub fn step(&mut self, move_steps: u32, is_paused: bool) -> (batch: Vec<Dispatch>)
        requires
            old(self).wf(),
            old(self)@.sim_step < u32::MAX,
            !is_paused ==> old(self)@.move_step + 2 * move_steps <= u32::MAX,
        ensures
            final(self).wf(),
            batch@ == old(self)@.batch(SimulatorState::iterations(move_steps as nat, is_paused)),
            final(self)@ == old(self)@.after_step(move_steps as nat, is_paused),
    {
        let ghost before = self@;
        let mut command_buffer_builder: Vec<Dispatch> = Vec::new();
        let mut done: u32 = 0;
        if !is_paused {
            while done < move_steps
                invariant
                    self.wf(),
                    done <= move_steps,
                    before.move_step + 2 * move_steps <= u32::MAX,
                    self@ == before.after_passes(2 * done as nat),
                    command_buffer_builder@ == Seq::new(
                        2 * done as nat,
                        |i: int| before.movement_pass(i),
                    ),
                decreases move_steps - done,
            {
                self.step_movement(&mut command_buffer_builder, Pipeline::Fall);
                self.step_movement(&mut command_buffer_builder, Pipeline::Slide);
                done += 1;
                assert(command_buffer_builder@ =~= Seq::new(
                    2 * done as nat,
                    |i: int| before.movement_pass(i),
                ));
            }
        }
        self.dispatch(&mut command_buffer_builder, Pipeline::Color, false);
        self.sim_step += 1;
        command_buffer_builder
    }

    /// Takes back a tick whose passes the device refused, so that the tick
    /// is skipped: the clocks return to where they stood before `step` was
    /// called with the same arguments, and nothing else changes.
    pub fn revert_step(&mut self, move_steps: u32, is_paused: bool)
        requires
            old(self).wf(),
            old(self)@.sim_step >= 1,
            old(self)@.move_step >= 2 * SimulatorState::iterations(move_steps as nat, is_paused),
        ensures
            final(self).wf(),
            final(self)@ == old(self)@.before_step(move_steps as nat, is_paused),
    {
        if !is_paused {
            self.move_step = self.move_step - 2 * move_steps;
        }
        self.sim_step -= 1;
    }
}

/// A tick that is taken back leaves no trace: the state is what it was
/// before the tick.
pub proof fn lemma_revert_step(state: SimulatorState, move_steps: nat, is_paused: bool)
    ensures
        state.after_step(move_steps, is_paused).before_step(move_steps, is_paused) == state,
        state.after_step(move_steps, is_paused).sim_step >= 1,
        state.after_step(move_steps, is_paused).move_step >= 2 * SimulatorState::iterations(
            move_steps,
            is_paused,
        ),
{
}

/// Over a tick the tick clock advances by one and the movement clock by two
/// for every iteration; while the simulation is paused the movement clock
/// stands still and the color pass runs alone.
pub proof fn lemma_step_clocks(state: SimulatorState, move_steps: nat, is_paused: bool)
    ensures
        state.after_step(move_steps, is_paused).sim_step == state.sim_step + 1,
        state.after_step(move_steps, is_paused).move_step >= state.move_step,
        is_paused ==> state.after_step(move_steps, is_paused).move_step == state.move_step,
        !is_paused ==> state.after_step(move_steps, is_paused).move_step == state.move_step + 2
            * move_steps,
        !is_paused ==> state.batch(SimulatorState::iterations(move_steps, is_paused)).len() == 2
            * move_steps + 1,
        is_paused ==> state.batch(SimulatorState::iterations(move_steps, is_paused)) == seq![
            state.dispatch_of(Pipeline::Color),
        ],
{
    if is_paused {
        assert(state.after_passes(0) == state);
        assert(state.batch(0) =~= seq![state.dispatch_of(Pipeline::Color)]);
    }
}

/// The order of the passes of a tick: fall and slide take turns and color
/// comes last and only last; each pass reads the buffer that the pass
/// before it wrote, and writes the other one; every movement pass is handed
/// a movement clock one higher than the pass before it, and all passes the
/// same tick clock.
pub proof fn lemma_batch_order(state: SimulatorState, move_steps: nat, i: int)
    requires
        state.wf(),
        state.move_step + 2 * move_steps <= u32::MAX,
        0 <= i < 2 * move_steps,
    ensures
        state.batch(move_steps).len() == 2 * move_steps + 1,
        state.batch(move_steps)[i].pipeline == if i % 2 == 0 {
            Pipeline::Fall
        } else {
            Pipeline::Slide
        },
        state.batch(move_steps)[2 * move_steps as int].pipeline == Pipeline::Color,
        state.batch(move_steps)[0].matter_in == state.front_id,
        state.batch(move_steps)[i + 1].matter_in == state.batch(move_steps)[i].matter_out,
        state.batch(move_steps)[i + 1].matter_out == state.batch(move_steps)[i].matter_in,
        state.batch(move_steps)[i].matter_in != state.batch(move_steps)[i].matter_out,
        state.batch(move_steps)[2 * move_steps as int].matter_in == state.front_id,
        state.batch(move_steps)[i].push_constants.move_step == state.move_step + i,
        state.batch(move_steps)[i + 1].push_constants.move_step == state.move_step + i + 1,
        state.batch(move_steps)[i].push_constants.sim_step == state.sim_step,
        state.batch(move_steps)[i + 1].push_constants.sim_step == state.sim_step,
{
    let batch = state.batch(move_steps);
    assert(batch[i] == state.movement_pass(i));
    if i + 1 < 2 * move_steps {
        assert(batch[i + 1] == state.movement_pass(i + 1));
    }
    assert(batch[0] == state.movement_pass(0));
}

/// Two cells inside the canvas that share an index are the same cell.
pub proof fn lemma_index_injective(state: SimulatorState, a: GridPos, b: GridPos)
    requires
        state.is_inside(a),
        state.is_inside(b),
        state.index(a) == state.index(b),
    ensures
        a == b,
{
    let w = state.width as int;
    assert(a.y == b.y) by (nonlinear_arith)
        requires
            0 <= a.x < w,
            0 <= b.x < w,
            a.y * w + a.x == b.y * w + b.x,
    ;
}

} // verus!
