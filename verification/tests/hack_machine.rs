use lib::text::is_vm_source;
use lib::Compiler;
use std::collections::HashMap;
use std::path::Path;

/// A small Hack machine that runs assembly text.
struct Machine {
    a: i16,
    d: i16,
    pc: usize,
    ram: Vec<i16>,
    rom: Vec<String>,
    symbols: HashMap<String, i16>,
}

impl Machine {
    fn new(text: &str) -> Machine {
        let mut rom = Vec::new();
        let mut symbols = HashMap::new();
        for (name, v) in [("SP", 0), ("LCL", 1), ("ARG", 2), ("THIS", 3), ("THAT", 4), ("R13", 13), ("R14", 14)] {
            symbols.insert(name.to_string(), v);
        }
        for line in text.lines() {
            let line = line.trim();
            if line.is_empty() || line.starts_with("//") {
                continue;
            }
            if line.starts_with('(') {
                symbols.insert(line[1..line.len() - 1].to_string(), rom.len() as i16);
            } else {
                rom.push(line.to_string());
            }
        }
        Machine { a: 0, d: 0, pc: 0, ram: vec![0; 32768], rom, symbols }
    }

    fn reg(&self, r: &str) -> i16 {
        match r {
            "A" => self.a,
            "D" => self.d,
            "M" => self.ram[self.a as u16 as usize],
            "0" => 0,
            "1" => 1,
            _ => panic!("unknown operand {}", r),
        }
    }

    fn comp(&self, c: &str) -> i16 {
        if let Some(r) = c.strip_prefix('!') {
            return !self.reg(r);
        }
        if c == "-1" {
            return -1;
        }
        if let Some(r) = c.strip_prefix('-') {
            return self.reg(r).wrapping_neg();
        }
        for op in ['+', '-', '&', '|'] {
            if let Some(i) = c.find(op) {
                let (x, y) = (self.reg(&c[..i]), self.reg(&c[i + 1..]));
                return match op {
                    '+' => x.wrapping_add(y),
                    '-' => x.wrapping_sub(y),
                    '&' => x & y,
                    _ => x | y,
                };
            }
        }
        self.reg(c)
    }

    fn run(&mut self) {
        let mut steps = 0;
        while self.pc < self.rom.len() {
            steps += 1;
            assert!(steps < 1_000_000, "does not end");
            let line = self.rom[self.pc].clone();
            self.pc += 1;
            if let Some(x) = line.strip_prefix('@') {
                self.a = match x.parse::<i16>() {
                    Ok(v) => v,
                    Err(_) => *self.symbols.get(x).expect("unknown symbol"),
                };
            } else if let Some((c, j)) = line.split_once(';') {
                let v = self.comp(c);
                let jump = match j {
                    "JEQ" => v == 0,
                    "JGT" => v > 0,
                    "JLT" => v < 0,
                    "JNE" => v != 0,
                    "JMP" => true,
                    _ => panic!("unknown jump"),
                };
                if jump {
                    self.pc = self.a as usize;
                }
            } else {
                let (dest, c) = line.split_once('=').unwrap();
                let v = self.comp(c);
                match dest {
                    "A" => self.a = v,
                    "D" => self.d = v,
                    "M" => {
                        let at = self.a as u16 as usize;
                        self.ram[at] = v;
                    },
                    _ => panic!("unknown dest"),
                }
            }
        }
    }
}

fn translate(text: &str) -> String {
    let mut c = Compiler::new(false);
    c.booting_code = String::new();
    c.parse_source("F.vm".to_string(), "F.vm".to_string(), Some(text.to_string())).unwrap();
    c.compile()
}

fn run_with(text: &str, setup: &[(usize, i16)]) -> Machine {
    let mut m = Machine::new(&translate(text));
    m.symbols.insert("F.vm.0".to_string(), 16);
    m.symbols.insert("F.vm.1".to_string(), 17);
    m.ram[0] = 256;
    for &(at, v) in setup {
        m.ram[at] = v;
    }
    m.run();
    m
}

#[test]
fn push_and_pop_move_values_through_the_stack() {
    let m = run_with(
        "push constant 7\npush constant -2\npop local 2\npush argument 1\npop temp 3\npop static 1\npush pointer 1\npop that 0",
        &[(1, 300), (2, 400), (401, 55), (4, 500)],
    );
    assert_eq!(m.ram[302], -2);
    assert_eq!(m.ram[8], 55);
    assert_eq!(m.ram[17], 7);
    assert_eq!(m.ram[500], 500);
    assert_eq!(m.ram[0], 256);
}

#[test]
fn arithmetic_computes_on_the_top_of_the_stack() {
    let m = run_with("push constant 7\npush constant 12\nsub", &[]);
    assert_eq!((m.ram[0], m.ram[256]), (257, -5));
    let m = run_with("push constant 32767\npush constant 1\nadd", &[]);
    assert_eq!(m.ram[256], i16::MIN);
    let m = run_with("push constant 12\npush constant 10\nand\nnot", &[]);
    assert_eq!(m.ram[256], !8);
    let m = run_with("push constant 12\npush constant 3\nor\nneg", &[]);
    assert_eq!(m.ram[256], -15);
}

#[test]
fn comparisons_leave_true_or_false() {
    for (op, x, y, want) in [
        ("eq", 4, 4, -1),
        ("eq", 4, 5, 0),
        ("gt", 5, 4, -1),
        ("gt", 4, 5, 0),
        ("lt", -3, 2, -1),
        ("lt", 2, -3, 0),
    ] {
        let m = run_with(&format!("push constant {}\npush constant {}\n{}", x, y, op), &[]);
        assert_eq!((m.ram[0], m.ram[256]), (257, want), "{} {} {}", op, x, y);
    }
}

#[test]
fn comparisons_of_one_file_declare_labels_of_their_own() {
    let out = translate("push constant 1\npush constant 1\neq\npush constant 2\nlt");
    let labels: Vec<&str> = out.lines().filter(|l| l.starts_with('(')).collect();
    assert_eq!(labels.len(), 4);
    for i in 0..labels.len() {
        for j in 0..i {
            assert_ne!(labels[i], labels[j]);
        }
    }
}

#[test]
fn function_entry_clears_its_locals() {
    let m = run_with("function F.f 3", &[(256, 9), (257, 9), (258, 9), (259, 9)]);
    assert_eq!(m.ram[0], 259);
    assert_eq!(&m.ram[256..260], &[0, 0, 0, 9]);
    let m = run_with("function F.g 0", &[(256, 9)]);
    assert_eq!((m.ram[0], m.ram[256]), (256, 9));
}

#[test]
fn vm_sources_are_named_as_path_extension_reads_them() {
    for name in ["Main.vm", "a.b.vm", ".vm", "..vm", "Main.VM", "Main.vmx", "vm", "Main.", "x.vm.bak", ""] {
        assert_eq!(is_vm_source(name), Path::new(name).extension().and_then(|e| e.to_str()) == Some("vm"), "{}", name);
    }
}
