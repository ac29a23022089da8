//! Core data model: rectangles, application launch configuration, and
//! the commands the control protocol carries.

use vstd::prelude::*;

verus! {

/// An axis-aligned rectangle on the shared canvas, in canvas pixels.
#[derive(Debug, Clone, Copy, PartialEq, Eq, Structural)]
pub struct Rect {
    pub x: u32,
    pub y: u32,
    pub width: u32,
    pub height: u32,
}

/// Whether the point `(px, py)` lies strictly inside `r`: both borders
/// are excluded.
pub open spec fn spec_is_inside(r: Rect, px: u32, py: u32) -> bool {
    &&& (r.x as int) < (px as int) < (r.x as int) + (r.width as int)
    &&& (r.y as int) < (py as int) < (r.y as int) + (r.height as int)
}

impl Rect {
    /// Strict, boundary-exclusive containment test.
    pub fn is_inside(&self, x: u32, y: u32) -> (r: bool)
        ensures
            r == spec_is_inside(*self, x, y),
    {
        let right: u64 = self.x as u64 + self.width as u64;
        let bottom: u64 = self.y as u64 + self.height as u64;
        self.x < x && (x as u64) < right && self.y < y && (y as u64) < bottom
    }
}

/// Mathematical value of an [`AppConfig`].
pub ghost struct AppConfigV {
    pub executable: Seq<char>,
    pub args: Seq<Seq<char>>,
    pub area: Rect,
}

/// How to launch one application: executable path, argument list, and
/// the canvas area its window is assigned.  Immutable once spawned
/// except through an explicit move command.
#[derive(Debug, PartialEq)]
pub struct AppConfig {
    pub executable: String,
    pub args: Vec<String>,
    pub area: Rect,
}

/// An element-wise copy of a list of strings.
pub fn clone_strings(v: &Vec<String>) -> (r: Vec<String>)
    ensures
        r@ == v@,
{
    let mut out: Vec<String> = Vec::new();
    let mut i: usize = 0;
    while i < v.len()
        invariant
            i <= v@.len(),
            out@.len() == i,
            forall|j: int| 0 <= j < i ==> out@[j] == v@[j],
        decreases v@.len() - i,
    {
        out.push(v[i].clone());
        i += 1;
    }
    proof {
        assert(out@ =~= v@);
    }
    out
}

impl Clone for AppConfig {
    /// A copy whose mathematical value equals the original's.
    fn clone(&self) -> (r: Self)
        ensures
            r@ == self@,
    {
        AppConfig {
            executable: self.executable.clone(),
            args: clone_strings(&self.args),
            area: self.area,
        }
    }
}

impl View for AppConfig {
    type V = AppConfigV;

    open spec fn view(&self) -> AppConfigV {
        AppConfigV {
            executable: self.executable@,
            args: Seq::new(self.args@.len(), |i: int| self.args@[i]@),
            area: self.area,
        }
    }
}

/// Mathematical value of a [`CompositorConfig`].
pub ghost struct CompositorConfigV {
    pub width: u32,
    pub height: u32,
    pub launch: Seq<AppConfigV>,
}

/// Startup configuration: the fixed canvas size and the applications
/// launched at boot.
#[derive(Debug)]
pub struct CompositorConfig {
    pub width: u32,
    pub height: u32,
    pub launch: Vec<AppConfig>,
}

impl View for CompositorConfig {
    type V = CompositorConfigV;

    open spec fn view(&self) -> CompositorConfigV {
        CompositorConfigV {
            width: self.width,
            height: self.height,
            launch: Seq::new(self.launch@.len(), |i: int| self.launch@[i]@),
        }
    }
}

/// Mathematical value of an [`AppControllerCommand`].
pub ghost enum AppControllerCommandV {
    Spawn { config: AppConfigV },
    Move { pid: u32, rect: Rect },
    Kill { pid: u32 },
    List,
    ScreenSize,
}

/// A command issued by a control client to the app controller.
#[derive(Debug, PartialEq)]
pub enum AppControllerCommand {
    Spawn { config: AppConfig },
    Move { pid: u32, rect: Rect },
    Kill { pid: u32 },
    List,
    ScreenSize,
}

impl View for AppControllerCommand {
    type V = AppControllerCommandV;

    open spec fn view(&self) -> AppControllerCommandV {
        match self {
            AppControllerCommand::Spawn { config } => AppControllerCommandV::Spawn {
                config: config@,
            },
            AppControllerCommand::Move { pid, rect } => AppControllerCommandV::Move {
                pid: *pid,
                rect: *rect,
            },
            AppControllerCommand::Kill { pid } => AppControllerCommandV::Kill { pid: *pid },
            AppControllerCommand::List => AppControllerCommandV::List,
            AppControllerCommand::ScreenSize => AppControllerCommandV::ScreenSize,
        }
    }
}

} // verus!
