use aarty::writer::Instruction;
use aarty::{
    convert_image_to_ascii, ANSIColor, Config, FragmentInfo, FragmentWriter, PixelImage, Rgba,
    SinkError, Sympols,
};
use vstd::seq::Seq;
use vstd::view::View;

/// A sink that fails once it holds `limit` glyphs.
struct Limited {
    glyphs: String,
    limit: usize,
    calls: usize,
}

// The items below that end in `unreachable!()` are specification items: they
// exist for the verifier and are never run.
impl View for Limited {
    type V = ();

    fn view(&self) {
        unreachable!()
    }
}

impl FragmentWriter for Limited {
    fn absorbed(_: (), _: Instruction) {
        unreachable!()
    }

    fn admits(_: Instruction) -> bool {
        unreachable!()
    }

    fn refuses(_: (), _: Instruction, _: SinkError, _: ()) -> bool {
        unreachable!()
    }

    fn closes(_: Seq<char>) -> bool {
        unreachable!()
    }

    fn background(&mut self, _: &ANSIColor) -> Result<bool, SinkError> {
        self.calls += 1;
        Ok(false)
    }

    fn write_fragment(&mut self, info: FragmentInfo) -> Result<(), SinkError> {
        self.calls += 1;
        if self.glyphs.len() >= self.limit {
            return Err(SinkError::Destination);
        }
        self.glyphs.push(info.sym);
        Ok(())
    }

    fn write_colored_fragment(
        &mut self,
        info: FragmentInfo,
        _: Option<&ANSIColor>,
        _: Option<&ANSIColor>,
    ) -> Result<(), SinkError> {
        self.write_fragment(info)
    }

    fn write_bytes(&mut self, _: &[u8]) -> Result<(), SinkError> {
        self.calls += 1;
        Ok(())
    }
}

/// A gray ramp, one row high: the pixel in column `x` has brightness `x * 60`.
struct Ramp {
    width: u32,
}

impl PixelImage for Ramp {
    fn spec_dimensions(&self) -> (u32, u32) {
        unreachable!()
    }

    fn spec_pixel(&self, _: u32, _: u32) -> Rgba {
        unreachable!()
    }

    fn dimensions(&self) -> (u32, u32) {
        (self.width, 1)
    }

    fn get_pixel(&self, x: u32, _: u32) -> Rgba {
        let v = (x * 60) as u8;
        Rgba::new(v, v, v, 255)
    }
}

#[test]
fn conversion_stops_at_the_first_failure_of_the_sink() {
    let cfg = Config { sympols: Sympols::new(vec!['a', 'b', 'c']), background: None, flags: 0 };
    let mut sink = Limited { glyphs: String::new(), limit: 2, calls: 0 };
    let r = convert_image_to_ascii(&cfg, &Ramp { width: 4 }, &mut sink);
    assert_eq!(r, Err(SinkError::Destination));
    // the two glyphs that the sink took stay, and the refused call is the last
    assert_eq!(sink.glyphs, "aa");
    assert_eq!(sink.calls, 3);
}

#[test]
fn conversion_reaches_the_end_where_the_sink_takes_all() {
    let cfg = Config { sympols: Sympols::new(vec!['a', 'b', 'c']), background: None, flags: 0 };
    let mut sink = Limited { glyphs: String::new(), limit: 9, calls: 0 };
    let r = convert_image_to_ascii(&cfg, &Ramp { width: 4 }, &mut sink);
    assert_eq!(r, Ok(()));
    assert_eq!(sink.glyphs, "aabc");
    // four fragments and the row break
    assert_eq!(sink.calls, 5);
}
