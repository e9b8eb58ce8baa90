use vstd::prelude::*;

verus! {

/// RCC_AHBENR: IOPAEN, the GPIOA clock enable.
pub const RCC_AHBENR_IOPAEN: u32 = 1 << 17u32;

/// RCC_APB2ENR: SYSCFGEN, the SYSCFG clock enable.
pub const RCC_APB2ENR_SYSCFGEN: u32 = 0b1;

/// RCC_APB2ENR: USART1EN, the USART1 clock enable.
pub const RCC_APB2ENR_USART1EN: u32 = 1 << 14u32;

/// GPIOA_MODER: the mode field of PA0.
pub const GPIOA_MODER_PA0_MASK: u32 = 0b11;

/// GPIOA_MODER: PA0 as input.
pub const GPIOA_MODER_PA0_INPUT: u32 = 0b00;

/// GPIOA_PUPDR: the pull field of PA0.
pub const GPIOA_PUPDR_PA0_MASK: u32 = 0b11;

/// GPIOA_PUPDR: pull-down on PA0.
pub const GPIOA_PUPDR_PA0_PULL_DOWN: u32 = 0b10;

/// SYSCFG_EXTICR1: the EXTI0 source field.
pub const SYSCFG_EXTICR1_EXTI0_MASK: u32 = 0b1111;

/// SYSCFG_EXTICR1: EXTI0 fed from port A.
pub const SYSCFG_EXTICR1_EXTI0_PA: u32 = 0b000;

/// EXTI_IMR1: line 0 unmasked.
pub const EXTI_IMR1_LINE0: u32 = 0b1;

/// EXTI_RTSR1: rising-edge trigger on line 0.
pub const EXTI_RTSR1_LINE0: u32 = 0b1;

/// NVIC_ISER0: EXTI0 is interrupt 6.
pub const NVIC_ISER0_EXTI0: u32 = 1 << 6u32;

/// GPIOA_MODER: the bits kept when PA9 and PA10 change mode.
pub const GPIOA_MODER_PA9_PA10_KEEP: u32 = 0b11_11_11_11_11_00_00_11_11_11_11_11_11_11_11_11;

/// GPIOA_MODER: PA9 and PA10 in alternate-function mode.
pub const GPIOA_MODER_PA9_PA10_ALTERNATE: u32 = 0b00_00_00_00_00_10_10_00_00_00_00_00_00_00_00_00;

/// GPIOA_PUPDR: the bits kept when the pull of PA10 changes.
pub const GPIOA_PUPDR_PA10_KEEP: u32 = 0b11_11_11_11_11_00_11_11_11_11_11_11_11_11_11_11;

/// GPIOA_PUPDR: pull-down on PA10 (USART1 RX).
pub const GPIOA_PUPDR_PA10_PULL_DOWN: u32 = 0b00_00_00_00_00_10_00_00_00_00_00_00_00_00_00_00;

/// GPIOA_AFRH: the bits kept when the alternate functions of PA9 and PA10 change.
pub const GPIOA_AFRH_PA9_PA10_KEEP: u32 = 0b1111_1111_1111_1111_1111_0000_0000_1111;

/// GPIOA_AFRH: the alternate-function value the firmware writes for USART1:
/// 7 in bits 7:4 (PA9) and in bits 3:0 (PA8).
pub const GPIOA_AFRH_PA9_PA10_AF7: u32 = 0b0000_0000_0000_0000_0000_0000_0111_0111;

/// USART1_CR1: UE, RE and TE.
pub const USART1_CR1_ENABLE: u32 = 0b1101;

/// Frequency of the HSI clock that USART1 runs from.
pub const HSI_HZ: u32 = 8_000_000;

/// Baud rate of USART1.
pub const USART1_BAUD: u32 = 115200;

/// Sets the bits of `bits` in the register value `reg`, keeping the others.
pub fn set_bits(reg: u32, bits: u32) -> (r: u32)
    ensures
        r == reg | bits,
        r & bits == bits,
        r & !bits == reg & !bits,
{
    assert((reg | bits) & bits == bits) by (bit_vector);
    assert((reg | bits) & !bits == reg & !bits) by (bit_vector);
    reg | bits
}

/// Clears the bits of `mask` in the register value `reg` and sets those of `value`.
pub fn replace_field(reg: u32, mask: u32, value: u32) -> (r: u32)
    ensures
        r == (reg & !mask) | value,
        r & mask == value & mask,
        r & !mask == (reg | value) & !mask,
{
    assert(((reg & !mask) | value) & mask == value & mask) by (bit_vector);
    assert(((reg & !mask) | value) & !mask == (reg | value) & !mask) by (bit_vector);
    (reg & !mask) | value
}

/// Keeps the bits `keep` of the register value `reg`, clears the others, and sets
/// those of `value`.
pub fn keep_and_set(reg: u32, keep: u32, value: u32) -> (r: u32)
    ensures
        r == (reg & keep) | value,
        r & !keep == value & !keep,
        r & keep == (reg | value) & keep,
{
    assert(((reg & keep) | value) & !keep == value & !keep) by (bit_vector);
    assert(((reg & keep) | value) & keep == (reg | value) & keep) by (bit_vector);
    (reg & keep) | value
}

/// The USART baud rate register value for clock `clock_hz` and rate `baud`.
pub fn usart_brr(clock_hz: u32, baud: u32) -> (r: u32)
    requires
        baud > 0,
    ensures
        r == clock_hz / baud,
{
    clock_hz / baud
}

/// Writing a field twice with the same value gives what writing it once gives.
pub proof fn lemma_replace_field_idempotent(reg: u32, mask: u32, value: u32)
    ensures
        (((reg & !mask) | value) & !mask) | value == (reg & !mask) | value,
{
    assert((((reg & !mask) | value) & !mask) | value == (reg & !mask) | value) by (bit_vector);
}

/// Each value the firmware writes into a field lies inside that field, but for
/// the alternate functions of USART1: that value sets bits 3:0 (the field of PA8)
/// and 7:4 (PA9), while the field it clears spans bits 11:4 (PA9 and PA10).
pub proof fn lemma_field_values_fit()
    ensures
        GPIOA_MODER_PA0_INPUT & !GPIOA_MODER_PA0_MASK == 0,
        GPIOA_PUPDR_PA0_PULL_DOWN & !GPIOA_PUPDR_PA0_MASK == 0,
        SYSCFG_EXTICR1_EXTI0_PA & !SYSCFG_EXTICR1_EXTI0_MASK == 0,
        GPIOA_MODER_PA9_PA10_ALTERNATE & GPIOA_MODER_PA9_PA10_KEEP == 0,
        GPIOA_PUPDR_PA10_PULL_DOWN & GPIOA_PUPDR_PA10_KEEP == 0,
        GPIOA_AFRH_PA9_PA10_AF7 & GPIOA_AFRH_PA9_PA10_KEEP == 0b0111,
        GPIOA_AFRH_PA9_PA10_AF7 & !GPIOA_AFRH_PA9_PA10_KEEP == 0b0111_0000,
{
    assert(0b00u32 & !0b11u32 == 0) by (bit_vector);
    assert(0b10u32 & !0b11u32 == 0) by (bit_vector);
    assert(0b000u32 & !0b1111u32 == 0) by (bit_vector);
    assert(0b00_00_00_00_00_10_10_00_00_00_00_00_00_00_00_00u32
        & 0b11_11_11_11_11_00_00_11_11_11_11_11_11_11_11_11u32 == 0) by (bit_vector);
    assert(0b00_00_00_00_00_10_00_00_00_00_00_00_00_00_00_00u32
        & 0b11_11_11_11_11_00_11_11_11_11_11_11_11_11_11_11u32 == 0) by (bit_vector);
    assert(0b0000_0000_0000_0000_0000_0000_0111_0111u32 & 0b1111_1111_1111_1111_1111_0000_0000_1111u32
        == 0b0111u32) by (bit_vector);
    assert(0b0000_0000_0000_0000_0000_0000_0111_0111u32 & !0b1111_1111_1111_1111_1111_0000_0000_1111u32
        == 0b0111_0000u32) by (bit_vector);
}

} // verus!
