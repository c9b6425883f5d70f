use vstd::prelude::*;
use crate::config::{Pca9685Config, ServoConfig};
use crate::errors::HardwareError;
use crate::hardware::{channel_from_number, spec_parse_address, output_channel, HardwareStatus, Pca9685Controller};
use crate::registry::{entry_with_key, has_key, keyed_map, keys_unique, lemma_append, lemma_entry_at, lemma_replace};
use crate::text::same_text;
use pwm_pca9685::Channel;

verus! {

/// The pulse tick for `angle` on `servo`: the linear interpolation of the
/// angle range onto the pulse range, truncated to a whole tick.
pub open spec fn pulse_for(servo: ServoConfig, angle: int) -> int {
    servo.min_pulse + (angle - servo.min_angle) * (servo.max_pulse - servo.min_pulse) / (
    servo.max_angle - servo.min_angle)
}

/// The tick for `angle` on `servo`, for a valid servo and an angle in its range.
pub fn angle_to_pulse(servo: &ServoConfig, angle: i32) -> (r: u16)
    requires
        servo.spec_is_valid(),
        servo.spec_accepts(angle as int),
    ensures
        r == pulse_for(*servo, angle as int),
        servo.min_pulse <= r <= servo.max_pulse,
{
    let offset: i64 = angle as i64 - servo.min_angle as i64;
    let angle_range: i64 = servo.max_angle as i64 - servo.min_angle as i64;
    let pulse_range: i64 = servo.max_pulse as i64 - servo.min_pulse as i64;
    assert(0 <= offset * pulse_range <= angle_range * pulse_range) by (nonlinear_arith)
        requires
            0 <= offset <= angle_range,
            0 < pulse_range,
    ;
    assert(angle_range * pulse_range <= 0x1_0000_0000 * 0x1_0000) by (nonlinear_arith)
        requires
            0 < angle_range < 0x1_0000_0000,
            0 < pulse_range < 0x1_0000,
    ;
    let scaled: i64 = offset * pulse_range / angle_range;
    assert(0 <= scaled <= pulse_range) by {
        vstd::arithmetic::div_mod::lemma_div_is_ordered(
            offset * pulse_range,
            angle_range * pulse_range,
            angle_range as int,
        );
        vstd::arithmetic::div_mod::lemma_div_multiples_vanish(
            pulse_range as int,
            angle_range as int,
        );
        vstd::arithmetic::div_mod::lemma_div_pos_is_pos(offset * pulse_range, angle_range as int);
        assert(angle_range * pulse_range == pulse_range * angle_range) by (nonlinear_arith);
    }
    (servo.min_pulse as i64 + scaled) as u16
}

/// The two writes that put a servo at an angle: the channel's pulse starts at
/// tick `on_tick` and ends at tick `off_tick` of each period.
#[derive(Debug)]
pub struct ServoWrite {
    /// The board that drives the servo.
    pub controller_id: String,
    /// The output on that board.
    pub channel: Channel,
    pub on_tick: u16,
    pub off_tick: u16,
}

/// Key of a board configuration in its registry: its id.
pub open spec fn controller_key() -> spec_fn(Pca9685Config) -> Seq<char> {
    |c: Pca9685Config| c.id@
}

/// Key of a servo configuration in its registry: its name.
pub open spec fn servo_key() -> spec_fn(ServoConfig) -> Seq<char> {
    |c: ServoConfig| c.name@
}

/// Every servo's board stays registered when a board is registered.
proof fn lemma_servo_refs_kept(
    servos: Seq<ServoConfig>,
    before: Seq<Pca9685Config>,
    after: Seq<Pca9685Config>,
    added: Pca9685Config,
)
    requires
        forall|i: int|
            0 <= i < servos.len() ==> has_key(before, controller_key(), #[trigger] servos[i].controller_id@),
        keyed_map(after, controller_key()) == keyed_map(before, controller_key()).insert(added.id@, added),
    ensures
        forall|i: int|
            0 <= i < servos.len() ==> has_key(after, controller_key(), #[trigger] servos[i].controller_id@),
{
    assert forall|i: int| 0 <= i < servos.len() implies has_key(after, controller_key(), #[trigger] servos[i].controller_id@) by {
        assert(keyed_map(before, controller_key()).dom().contains(servos[i].controller_id@));
        assert(keyed_map(after, controller_key()).dom().contains(servos[i].controller_id@));
    }
}

/// The controller and servo registries. Each controller id and each servo name
/// is registered once, and every servo's board is registered.
pub struct ServoManager {
    controllers: Vec<Pca9685Controller>,
    servos: Vec<ServoConfig>,
}

impl ServoManager {
    /// The registered boards' configurations, in order of first registration.
    pub closed spec fn controller_configs(&self) -> Seq<Pca9685Config> {
        self.controllers@.map_values(|c: Pca9685Controller| c.config)
    }

    /// The registered servos, in order of first registration.
    pub closed spec fn servo_configs(&self) -> Seq<ServoConfig> {
        self.servos@
    }

    #[verifier::type_invariant]
    spec fn inv(&self) -> bool {
        &&& keys_unique(self.controller_configs(), controller_key())
        &&& keys_unique(self.servo_configs(), servo_key())
        &&& forall|i: int|
            0 <= i < self.servos@.len() ==> self.has_controller(
                #[trigger] self.servos@[i].controller_id@,
            )
    }

    /// The registered boards by id.
    pub open spec fn controller_map(&self) -> Map<Seq<char>, Pca9685Config> {
        keyed_map(self.controller_configs(), controller_key())
    }

    /// The registered servos by name.
    pub open spec fn servo_map(&self) -> Map<Seq<char>, ServoConfig> {
        keyed_map(self.servo_configs(), servo_key())
    }

    /// Whether a board with id `id` is registered.
    pub open spec fn has_controller(&self, id: Seq<char>) -> bool {
        has_key(self.controller_configs(), controller_key(), id)
    }

    /// The registered servo named `name`.
    pub open spec fn servo_named(&self, name: Seq<char>) -> Option<ServoConfig> {
        entry_with_key(self.servo_configs(), servo_key(), name)
    }

    /// Empty registries.
    pub fn new() -> (r: ServoManager)
        ensures
            r.controller_configs() == Seq::<Pca9685Config>::empty(),
            r.servo_configs() == Seq::<ServoConfig>::empty(),
    {
        let r = ServoManager { controllers: Vec::new(), servos: Vec::new() };
        assert(r.controller_configs() =~= Seq::<Pca9685Config>::empty());
        r
    }

    /// Position of the servo named `name`.
    fn find_servo(&self, name: &str) -> (r: Option<usize>)
        ensures
            r is Some ==> r->0 < self.servo_configs().len() && self.servo_configs()[r->0 as int].name@
                == name@,
            r is None ==> !has_key(self.servo_configs(), servo_key(), name@),
    {
        let mut i: usize = 0;
        while i < self.servos.len()
            invariant
                i <= self.servos@.len(),
                forall|j: int| 0 <= j < i ==> (#[trigger] self.servos@[j]).name@ != name@,
            decreases self.servos@.len() - i,
        {
            if same_text(self.servos[i].name.as_str(), name) {
                return Some(i);
            }
            i = i + 1;
        }
        None
    }

    /// Position of the board with id `id`.
    fn find_controller(&self, id: &str) -> (r: Option<usize>)
        ensures
            r is Some ==> r->0 < self.controller_configs().len()
                && self.controller_configs()[r->0 as int].id@ == id@,
            r is None ==> !self.has_controller(id@),
    {
        let mut i: usize = 0;
        while i < self.controllers.len()
            invariant
                i <= self.controllers@.len(),
                forall|j: int| 0 <= j < i ==> (#[trigger] self.controllers@[j]).config.id@ != id@,
            decreases self.controllers@.len() - i,
        {
            if same_text(self.controllers[i].config.id.as_str(), id) {
                return Some(i);
            }
            i = i + 1;
        }
        assert forall|j: int| 0 <= j < self.controller_configs().len() implies
            #[trigger] self.controller_configs()[j].id@ != id@ by {
            assert(self.controller_configs()[j] == self.controllers@[j].config);
        }
        None
    }

    /// Registers the board that `config` describes, as operational, in place
    /// of any board with the same id. Fails with `InvalidParameter`, and
    /// changes nothing, when the bus address is malformed.
    pub fn initialize_controller(&mut self, config: Pca9685Config) -> (r: Result<(), HardwareError>)
        ensures
            r is Ok <==> spec_parse_address(config.i2c_address@) is Some,
            r is Err ==> r->Err_0 is InvalidParameter && final(self).controller_configs()
                == old(self).controller_configs(),
            r is Ok ==> final(self).controller_map() == old(self).controller_map().insert(
                config.id@,
                config,
            ),
            final(self).servo_configs() == old(self).servo_configs(),
    {
        proof {
            use_type_invariant(&*self);
        }
        let mut controller = match Pca9685Controller::new(config) {
            Ok(c) => c,
            Err(e) => {
                return Err(e);
            },
        };
        controller.status = HardwareStatus::Operational;
        let ghost configs = self.controller_configs();
        let found = self.find_controller(controller.config.id.as_str());
        let mut parts = ServoManager::new();
        core::mem::swap(self, &mut parts);
        proof {
            use_type_invariant(&parts);
        }
        let ServoManager { mut controllers, servos } = parts;
        match found {
            Some(i) => {
                proof {
                    lemma_replace(configs, controller_key(), i as int, controller.config);
                }
                controllers.set(i, controller);
                assert(controllers@.map_values(|c: Pca9685Controller| c.config) =~= configs.update(
                    i as int,
                    controller.config,
                ));
            },
            None => {
                proof {
                    lemma_append(configs, controller_key(), controller.config);
                }
                controllers.push(controller);
                assert(controllers@.map_values(|c: Pca9685Controller| c.config) =~= configs.push(
                    controller.config,
                ));
            },
        }
        proof {
            lemma_servo_refs_kept(servos@, configs, controllers@.map_values(|c: Pca9685Controller| c.config), controller.config);
        }
        *self = ServoManager { controllers, servos };
        Ok(())
    }

    /// The registered boards' configurations.
    pub fn list_controllers(&self) -> (r: Vec<Pca9685Config>)
        ensures
            r@ == self.controller_configs(),
    {
        let mut r: Vec<Pca9685Config> = Vec::new();
        let mut i: usize = 0;
        while i < self.controllers.len()
            invariant
                i <= self.controllers@.len(),
                r@ == self.controller_configs().subrange(0, i as int),
            decreases self.controllers@.len() - i,
        {
            r.push(self.controllers[i].config.clone());
            i = i + 1;
            assert(r@ =~= self.controller_configs().subrange(0, i as int));
        }
        assert(r@ =~= self.controller_configs());
        r
    }

    /// Registers `config` in place of any servo of the same name. Fails with
    /// `NotFound`, and changes nothing, when its board is not registered.
    pub fn add_servo(&mut self, config: ServoConfig) -> (r: Result<(), HardwareError>)
        ensures
            r is Ok <==> old(self).has_controller(config.controller_id@),
            r is Err ==> r->Err_0 is NotFound && final(self).servo_configs()
                == old(self).servo_configs(),
            r is Ok ==> final(self).servo_map() == old(self).servo_map().insert(config.name@, config),
            final(self).controller_configs() == old(self).controller_configs(),
    {
        proof {
            use_type_invariant(&*self);
        }
        if self.find_controller(config.controller_id.as_str()).is_none() {
            return Err(
                HardwareError::NotFound(
                    String::from_str("Controller '").concat(config.controller_id.as_str()).concat(
                        "' not found",
                    ),
                ),
            );
        }
        let ghost before = self.servos@;
        let found = self.find_servo(config.name.as_str());
        let mut parts = ServoManager::new();
        core::mem::swap(self, &mut parts);
        proof {
            use_type_invariant(&parts);
        }
        let ServoManager { controllers, mut servos } = parts;
        match found {
            Some(i) => {
                proof {
                    lemma_replace(before, servo_key(), i as int, config);
                }
                servos.set(i, config);
            },
            None => {
                proof {
                    lemma_append(before, servo_key(), config);
                }
                servos.push(config);
            },
        }
        *self = ServoManager { controllers, servos };
        Ok(())
    }

    /// The registered servo named `name`.
    pub fn get_servo_config(&self, name: &str) -> (r: Option<ServoConfig>)
        ensures
            r == self.servo_named(name@),
    {
        proof {
            use_type_invariant(self);
        }
        match self.find_servo(name) {
            Some(i) => {
                proof {
                    lemma_entry_at(self.servos@, servo_key(), i as int);
                }
                Some(self.servos[i].clone())
            },
            None => None,
        }
    }

    /// The registered servos.
    pub fn list_servos(&self) -> (r: Vec<ServoConfig>)
        ensures
            r@ == self.servo_configs(),
    {
        let mut r: Vec<ServoConfig> = Vec::new();
        let mut i: usize = 0;
        while i < self.servos.len()
            invariant
                i <= self.servos@.len(),
                r@ == self.servo_configs().subrange(0, i as int),
            decreases self.servos@.len() - i,
        {
            r.push(self.servos[i].clone());
            i = i + 1;
            assert(r@ =~= self.servo_configs().subrange(0, i as int));
        }
        assert(r@ =~= self.servo_configs());
        r
    }

    /// The writes that put the servo named `name` at `angle` (thousandths of a
    /// degree). Fails with `NotFound` for an unknown servo, and with
    /// `InvalidParameter` for an angle outside the servo's range or for a
    /// servo whose channel or ranges are invalid; a failure plans no write.
    /// Otherwise the pulse starts at tick 0 and ends at the interpolated tick.
    pub fn move_servo(&self, name: &str, angle: i32) -> (r: Result<ServoWrite, HardwareError>)
        ensures
            self.servo_named(name@) is None ==> r is Err && r->Err_0 is NotFound,
            self.servo_named(name@) is Some && !self.servo_named(name@)->0.spec_accepts(angle as int)
                ==> r is Err && r->Err_0 is InvalidParameter,
            self.servo_named(name@) is Some && self.servo_named(name@)->0.spec_accepts(angle as int)
                && !self.servo_named(name@)->0.spec_is_valid() ==> r is Err && r->Err_0 is InvalidParameter,
            self.servo_named(name@) is Some && self.servo_named(name@)->0.spec_accepts(angle as int)
                && self.servo_named(name@)->0.spec_is_valid() ==> r is Ok,
            r is Ok ==> ({
                let servo = self.servo_named(name@)->0;
                let w = r->Ok_0;
                &&& w.controller_id@ == servo.controller_id@
                &&& self.has_controller(w.controller_id@)
                &&& w.channel == output_channel(servo.channel)
                &&& w.on_tick == 0
                &&& w.off_tick == pulse_for(servo, angle as int)
            }),
    {
        proof {
            use_type_invariant(self);
        }
        let i = match self.find_servo(name) {
            Some(i) => i,
            None => {
                return Err(
                    HardwareError::NotFound(
                        String::from_str("Servo '").concat(name).concat("' not found"),
                    ),
                );
            },
        };
        proof {
            lemma_entry_at(self.servos@, servo_key(), i as int);
        }
        let servo = &self.servos[i];
        if angle < servo.min_angle || angle > servo.max_angle {
            return Err(
                HardwareError::InvalidParameter(
                    String::from_str("Angle is outside the valid range of servo '").concat(
                        name,
                    ).concat("'"),
                ),
            );
        }
        if !servo.is_valid() {
            return Err(
                HardwareError::InvalidParameter(
                    String::from_str("Invalid channel or ranges for servo '").concat(name).concat(
                        "'",
                    ),
                ),
            );
        }
        if self.find_controller(servo.controller_id.as_str()).is_none() {
            return Err(
                HardwareError::NotFound(
                    String::from_str("Controller '").concat(servo.controller_id.as_str()).concat(
                        "' not found",
                    ),
                ),
            );
        }
        let off_tick = angle_to_pulse(servo, angle);
        let channel = match channel_from_number(servo.channel) {
            Some(c) => c,
            None => {
                return Err(
                    HardwareError::InvalidParameter(String::from_str("Invalid channel number")),
                );
            },
        };
        Ok(ServoWrite { controller_id: servo.controller_id.clone(), channel, on_tick: 0, off_tick })
    }
}

/// A servo that has just been registered is the one that a move by its name
/// finds.
pub proof fn lemma_added_servo_is_found(before: ServoManager, after: ServoManager, config: ServoConfig)
    requires
        after.servo_map() == before.servo_map().insert(config.name@, config),
    ensures
        after.servo_named(config.name@) == Some(config),
{
    let k = config.name@;
    assert(after.servo_map().dom().contains(k));
    assert(has_key(after.servo_configs(), servo_key(), k));
    assert(after.servo_map()[k] == entry_with_key(after.servo_configs(), servo_key(), k)->0);
}

} // verus!
